//! What each command of a channel asks for and what it leaves behind.

use vstd::prelude::*;

use crate::api::{GoalStatus, ReasoningEffort, SessionAction};
use crate::format::session_text;
use crate::gateway::{
    GatewayError, GatewayView, GoalCallView, GoalCommandView, GoalStepView, SessionStepView,
};
use crate::protocol::{RequestIdView, RequestView};
use crate::state::{fresh_session, SessionView};
use crate::text::decimal;

verus! {

/// Two gateways are the same but for the session of `key`: the other channels have what they had,
/// and so do the defaults and the number of the next request.
pub open spec fn same_elsewhere<K>(
    before: GatewayView<K>,
    after: GatewayView<K>,
    key: K,
) -> bool {
    &&& forall|other: K|
        other != key ==> {
            &&& (#[trigger] after.sessions.contains_key(other) <==> before.sessions.contains_key(
                other,
            ))
            &&& after.session(other) == before.session(other)
        }
    &&& after.default_model == before.default_model
    &&& after.default_cwd == before.default_cwd
    &&& after.service_name == before.service_name
    &&& after.next_request_id == before.next_request_id
}

/// A channel has the session that is kept for it; one that has none yet has the default model and
/// nothing else. To keep a session for a channel is to find it there afterwards.
pub proof fn a_channel_has_the_session_kept_for_it<K>(
    gateway: GatewayView<K>,
    key: K,
    session: SessionView,
)
    ensures
        gateway.sessions.contains_key(key) ==> gateway.session(key) == gateway.sessions[key],
        !gateway.sessions.contains_key(key) ==> {
            let fresh = gateway.session(key);
            &&& fresh.model == gateway.default_model
            &&& fresh.thread_id is None
            &&& fresh.effort is None
            &&& fresh.active_turn_id is None
            &&& fresh.queued.len() == 0
        },
        ({
            let after = gateway.with_session(key, session);
            &&& after.sessions.contains_key(key)
            &&& after.session(key) == session
            &&& same_elsewhere(gateway, after, key)
        }),
        ({
            let after = gateway.opened(key);
            &&& after.sessions.contains_key(key)
            &&& after.session(key) == gateway.session(key)
            &&& same_elsewhere(gateway, after, key)
        }),
        forall|model: Seq<char>| (#[trigger] fresh_session(model)).model == model,
{
}

/// A request takes the number that is next and changes no session.
pub proof fn a_request_changes_no_session<K>(gateway: GatewayView<K>)
    ensures
        gateway.call_id() == RequestIdView::Int64(gateway.next_request_id),
        gateway.called().sessions == gateway.sessions,
        forall|key: K| #[trigger] gateway.called().session(key) == gateway.session(key),
        gateway.called().default_model == gateway.default_model,
        gateway.called().default_cwd == gateway.default_cwd,
        gateway.called().service_name == gateway.service_name,
        gateway.next_request_id < i64::MAX ==> gateway.called().next_request_id
            == gateway.next_request_id + 1,
        gateway.next_request_id == i64::MAX ==> gateway.called().next_request_id == i64::MIN,
{
}

/// A prompt joins the end of its channel's queue and changes nothing else there.
pub proof fn a_prompt_joins_the_end_of_the_queue<K>(
    gateway: GatewayView<K>,
    key: K,
    prompt: Seq<char>,
)
    ensures
        ({
            let before = gateway.session(key);
            let after = gateway.enqueued(key, prompt).session(key);
            &&& after.queued.len() == before.queued.len() + 1
            &&& after.queued.drop_last() == before.queued
            &&& after.queued.last() == prompt
            &&& after.thread_id == before.thread_id
            &&& after.model == before.model
            &&& after.effort == before.effort
            &&& after.active_turn_id == before.active_turn_id
            &&& gateway.enqueued(key, prompt).sessions.contains_key(key)
            &&& same_elsewhere(gateway, gateway.enqueued(key, prompt), key)
        }),
{
    assert(gateway.enqueued(key, prompt).session(key).queued.drop_last()
        =~= gateway.session(key).queued);
}

/// The worker takes the first prompt that waits exactly where no turn is under way and one waits; it
/// is then gone from the queue, and nothing else changes.
pub proof fn the_worker_takes_the_first_prompt<K>(gateway: GatewayView<K>, key: K)
    ensures
        ({
            let before = gateway.session(key);
            let after = gateway.dequeued(key).session(key);
            let idle = before.active_turn_id is None;
            &&& gateway.ready(key) <==> idle && before.queued.len() > 0
            &&& gateway.next_prompt(key) is Some <==> idle && before.queued.len() > 0
            &&& gateway.next_prompt(key) matches Some(prompt) ==> before.queued == seq![prompt]
                + after.queued
            &&& gateway.next_prompt(key) is None ==> after.queued == before.queued
            &&& after.thread_id == before.thread_id
            &&& after.model == before.model
            &&& after.effort == before.effort
            &&& after.active_turn_id == before.active_turn_id
            &&& gateway.dequeued(key).sessions.contains_key(key)
            &&& same_elsewhere(gateway, gateway.dequeued(key), key)
        }),
{
    let queue = gateway.session(key).queued;
    if queue.len() > 0 {
        assert(queue =~= seq![queue.first()] + queue.drop_first());
    }
}

/// A choice of model, of effort or of thread is found in the session of the channel, and changes
/// nothing else.
pub proof fn a_choice_changes_one_thing<K>(
    gateway: GatewayView<K>,
    key: K,
    text: Seq<char>,
    effort: Option<ReasoningEffort>,
)
    ensures
        ({
            let before = gateway.session(key);
            let chosen = gateway.with_model(key, text);
            &&& chosen.session(key) == (SessionView { model: text, ..before })
            &&& chosen.sessions.contains_key(key)
            &&& same_elsewhere(gateway, chosen, key)
        }),
        ({
            let before = gateway.session(key);
            let chosen = gateway.with_effort(key, effort);
            &&& chosen.session(key) == (SessionView { effort, ..before })
            &&& chosen.sessions.contains_key(key)
            &&& same_elsewhere(gateway, chosen, key)
        }),
        ({
            let before = gateway.session(key);
            let taken = gateway.with_thread(key, text);
            &&& taken.session(key) == (SessionView { thread_id: Some(text), ..before })
            &&& taken.sessions.contains_key(key)
            &&& same_elsewhere(gateway, taken, key)
        }),
{
}

/// The turn that is noted as under way is found in the session of the channel, if it has one, and
/// nothing else changes.
pub proof fn an_active_turn_is_noted<K>(
    gateway: GatewayView<K>,
    key: K,
    turn_id: Option<Seq<char>>,
)
    ensures
        ({
            let before = gateway.session(key);
            let after = gateway.with_active_turn(key, turn_id);
            &&& gateway.sessions.contains_key(key) ==> after.session(key) == (SessionView {
                active_turn_id: turn_id,
                ..before
            })
            &&& !gateway.sessions.contains_key(key) ==> after.session(key) == before
            &&& after.sessions.contains_key(key) <==> gateway.sessions.contains_key(key)
            &&& same_elsewhere(gateway, after, key)
        }),
{
}

/// The queue of a channel is shown by the turn that is under way, or by words that there is none,
/// and by how many prompts wait; a channel without a session is told so.
pub proof fn the_queue_is_shown_as_it_is<K>(gateway: GatewayView<K>, key: K)
    ensures
        gateway.sessions.contains_key(key) ==> {
            let session = gateway.session(key);
            let count = decimal(session.queued.len() as int);
            &&& session.active_turn_id matches Some(turn_id) ==> gateway.queue_text(key)
                == "Active: "@ + turn_id + "\nQueued turns: "@ + count
            &&& session.active_turn_id is None ==> gateway.queue_text(key)
                == "Active: no active turn\nQueued turns: "@ + count
        },
        !gateway.sessions.contains_key(key) ==> gateway.queue_text(key)
            == "No session for this channel yet."@,
{
    reveal_strlit("Active: ");
    reveal_strlit("no active turn");
    reveal_strlit("\nQueued turns: ");
    reveal_strlit("Active: no active turn\nQueued turns: ");
    assert("Active: no active turn\nQueued turns: "@ =~= "Active: "@ + "no active turn"@
        + "\nQueued turns: "@);
}

/// The request of a goal command is about the thread that it is given and carries what was asked
/// for: to show, to pursue an objective within a budget, to go over to a state, or to clear.
pub proof fn a_goal_request_carries_what_was_asked_for(
    id: RequestIdView,
    thread_id: Seq<char>,
    objective: Seq<char>,
    budget: Option<i64>,
    status: GoalStatus,
)
    ensures
        GoalCommandView::Show.call(id, thread_id) matches GoalCallView::Show(
            RequestView::ThreadGoalGet { id: i, thread_id: t },
        ) && i == id && t == thread_id,
        GoalCommandView::Clear.call(id, thread_id) matches GoalCallView::Clear(
            RequestView::ThreadGoalClear { id: i, thread_id: t },
        ) && i == id && t == thread_id,
        (GoalCommandView::Pursue { objective, budget }).call(
            id,
            thread_id,
        ) matches GoalCallView::Change(
            RequestView::ThreadGoalSet {
                id: i,
                thread_id: t,
                objective: o,
                token_budget: b,
                status: s,
            },
        ) && i == id && t == thread_id && o == Some(objective) && b == budget && s == Some(
            GoalStatus::Active,
        ),
        GoalCommandView::SetStatus(status).call(id, thread_id) matches GoalCallView::Change(
            RequestView::ThreadGoalSet {
                id: i,
                thread_id: t,
                objective: o,
                token_budget: b,
                status: s,
            },
        ) && i == id && t == thread_id && o is None && b is None && s == Some(status),
        GoalCommandView::of(Some(objective), budget) == (GoalCommandView::Pursue {
            objective,
            budget,
        }),
        GoalCommandView::of(None, budget) == GoalCommandView::Show,
{
}

/// Different goal commands make different requests: no two of them can be taken for one another, on
/// the same thread or on two.
pub proof fn goal_requests_are_told_apart(
    a: GoalCommandView,
    b: GoalCommandView,
    id: RequestIdView,
    thread_a: Seq<char>,
    thread_b: Seq<char>,
)
    requires
        a.call(id, thread_a) == b.call(id, thread_b),
    ensures
        a == b,
        thread_a == thread_b,
{
}

/// A goal command of a channel with a thread is a request about that thread, with the next number. A
/// channel without one first asks for a thread of its own, takes no number for that, and then makes
/// the request that it would have made with the thread from the start.
pub proof fn a_goal_command_is_about_the_thread_of_its_channel<K>(
    gateway: GatewayView<K>,
    key: K,
    command: GoalCommandView,
    thread_id: Seq<char>,
)
    ensures
        gateway.session(key).thread_id matches Some(thread) ==> {
            &&& gateway.goal_step(key, command) == GoalStepView::<K>::Call(
                command.call(RequestIdView::Int64(gateway.next_request_id), thread),
            )
            &&& gateway.after_goal_step(key).next_request_id == gateway.called().next_request_id
        },
        gateway.session(key).thread_id is None ==> {
            &&& gateway.goal_step(key, command) matches GoalStepView::StartThread {
                params,
                key: k,
                command: c,
            }
            &&& params.model == Some(gateway.session(key).model)
            &&& params.cwd == gateway.default_cwd
            &&& params.service_name == gateway.service_name
            &&& k == key
            &&& c == command
            &&& gateway.after_goal_step(key).next_request_id == gateway.next_request_id
            &&& gateway.after_goal_step(key).with_thread(key, thread_id).goal_step(key, command)
                == GoalStepView::<K>::Call(command.call(gateway.call_id(), thread_id))
        },
        gateway.after_goal_step(key).sessions.contains_key(key),
        gateway.after_goal_step(key).default_cwd == gateway.default_cwd,
        gateway.after_goal_step(key).default_model == gateway.default_model,
        gateway.after_goal_step(key).service_name == gateway.service_name,
        forall|any: K| #[trigger]
            gateway.after_goal_step(key).session(any) == gateway.session(any),
{
}

/// A new thread is asked for with the model that the channel has, which is the one that it chose.
pub proof fn a_new_thread_has_the_model_of_its_channel<K>(
    gateway: GatewayView<K>,
    key: K,
    model: Seq<char>,
    named: Option<Seq<char>>,
)
    ensures
        ({
            let chosen = gateway.with_model(key, model);
            &&& chosen.session_step(key, SessionAction::New, named)
                matches SessionStepView::StartThread { params, key: k }
            &&& params.model == Some(model)
            &&& params.cwd == gateway.default_cwd
            &&& params.service_name == gateway.service_name
            &&& k == key
        }),
        ({
            &&& gateway.session_step(key, SessionAction::New, named)
                matches SessionStepView::StartThread { params, key: k }
            &&& params.model == Some(gateway.session(key).model)
            &&& params.cwd == gateway.default_cwd
            &&& params.service_name == gateway.service_name
            &&& k == key
        }),
        gateway.thread_start(model).model == Some(model),
        gateway.thread_start(model).cwd == gateway.default_cwd,
        gateway.thread_start(model).service_name == gateway.service_name,
{
}

/// A switch asks for the thread that is named, with the model that the channel has, which is the one
/// that it chose, and with the next number; a switch that names no thread is refused.
pub proof fn a_switch_keeps_the_model_of_its_channel<K>(
    gateway: GatewayView<K>,
    key: K,
    model: Seq<char>,
    thread_id: Seq<char>,
)
    ensures
        ({
            let chosen = gateway.with_model(key, model);
            &&& chosen.session_step(key, SessionAction::Switch, Some(thread_id))
                matches SessionStepView::Resume {
                request: RequestView::ThreadResume { id, params },
                key: k,
            }
            &&& id == RequestIdView::Int64(gateway.next_request_id)
            &&& params.thread_id == thread_id
            &&& params.model == Some(model)
            &&& params.cwd == gateway.default_cwd
            &&& k == key
        }),
        ({
            &&& gateway.session_step(key, SessionAction::Switch, Some(thread_id))
                matches SessionStepView::Resume {
                request: RequestView::ThreadResume { id, params },
                key: k,
            }
            &&& id == RequestIdView::Int64(gateway.next_request_id)
            &&& params.thread_id == thread_id
            &&& params.model == Some(gateway.session(key).model)
            &&& params.cwd == gateway.default_cwd
            &&& k == key
        }),
        gateway.session_step(key, SessionAction::Switch, None) == SessionStepView::<K>::Refuse(
            GatewayError::MissingThreadId,
        ),
        gateway.after_session_step(key, SessionAction::Switch, None) == gateway,
{
}

/// A list asks for the last ten threads with the next number, whichever channel asks.
pub proof fn a_list_asks_for_ten_threads<K>(
    gateway: GatewayView<K>,
    key: K,
    named: Option<Seq<char>>,
)
    ensures
        ({
            &&& gateway.session_step(key, SessionAction::List, named) matches SessionStepView::List(
                RequestView::ThreadList { id, limit },
            )
            &&& id == RequestIdView::Int64(gateway.next_request_id)
            &&& limit == Some(10u32)
        }),
        gateway.after_session_step(key, SessionAction::List, named) == gateway.called(),
{
}

/// A session command changes no session: it takes a number exactly where it makes a request, and
/// otherwise at most gives the channel its fresh session. That it asks to show is answered with what
/// the session is at that time.
pub proof fn a_session_command_changes_no_session<K>(
    gateway: GatewayView<K>,
    key: K,
    action: SessionAction,
    named: Option<Seq<char>>,
)
    ensures
        ({
            let after = gateway.after_session_step(key, action, named);
            let asks = action is List || action is Switch && named is Some;
            &&& forall|any: K| #[trigger] after.session(any) == gateway.session(any)
            &&& forall|other: K| other != key ==> (#[trigger] after.sessions.contains_key(other)
                <==> gateway.sessions.contains_key(other))
            &&& after.sessions.contains_key(key) <==> gateway.sessions.contains_key(key)
                || action is Show || action is New || action is Switch && named is Some
            &&& after.default_model == gateway.default_model
            &&& after.default_cwd == gateway.default_cwd
            &&& after.service_name == gateway.service_name
            &&& after.next_request_id == (if asks {
                gateway.called().next_request_id
            } else {
                gateway.next_request_id
            })
        }),
        gateway.session_step(key, SessionAction::Show, named) == SessionStepView::<K>::Reply(
            session_text(gateway.session(key)),
        ),
        gateway.session_step(key, SessionAction::Show, named) == gateway.opened(key).session_step(
            key,
            SessionAction::Show,
            None,
        ),
{
}

/// The texts of refusals tell them apart.
pub proof fn refusals_are_told_apart(a: GatewayError, b: GatewayError)
    requires
        a.text() == b.text(),
    ensures
        a == b,
{
    reveal_strlit("no active thread for this channel");
    reveal_strlit("no active turn for this channel");
    reveal_strlit("thread_id is required");
    assert("no active thread for this channel"@.len() == 33);
    assert("no active turn for this channel"@.len() == 31);
    assert("thread_id is required"@.len() == 21);
    assert(a.text().len() == b.text().len());
}

} // verus!
