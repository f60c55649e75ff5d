//! What holds of the sessions of all channels, whatever commands they get.

use vstd::prelude::*;

use crate::api::{ReasoningEffort, SessionAction};
use crate::format::{percent_left, session_text, shown_models, SHOWN_MODELS};
use crate::gateway::{
    GatewayView, GoalCommandView, GoalStepView, SessionStepView, FIRST_REQUEST_ID,
};
use crate::protocol::{Model, RequestIdView, RequestView};
use crate::state::{fresh_session, SessionView};
use crate::turn::{turn_begin, ActionView, Effect, PhaseView};

verus! {

/// While a turn is under way in a channel, no other one begins there and its queue keeps.
pub proof fn a_channel_runs_one_turn_at_a_time<K>(
    gateway: GatewayView<K>,
    key: K,
    turn_id: Seq<char>,
)
    requires
        gateway.sessions.contains_key(key),
    ensures
        ({
            let running = gateway.with_active_turn(key, Some(turn_id));
            &&& running.next_prompt(key) is None
            &&& running.dequeued(key).session(key) == running.session(key)
        }),
{
}

/// A turn that ended lets the next one begin, with the queue as it was.
pub proof fn an_ended_turn_gives_way_to_the_next<K>(
    gateway: GatewayView<K>,
    key: K,
)
    ensures
        ({
            let idle = gateway.with_active_turn(key, None);
            let queue = gateway.session(key).queued;
            idle.next_prompt(key) == (if queue.len() > 0 {
                Some(queue.first())
            } else {
                None
            })
        }),
{
}

/// Two gateways differ in nothing but the session of `key`, and no session was lost.
pub open spec fn only_session_changed<K>(
    before: GatewayView<K>,
    after: GatewayView<K>,
    key: K,
) -> bool {
    &&& after.sessions.dom() =~= before.sessions.dom().insert(key)
    &&& forall|other: K| other != key && before.sessions.contains_key(other)
        ==> #[trigger] after.sessions[other] == before.sessions[other]
    &&& after.default_model == before.default_model
    &&& after.default_cwd == before.default_cwd
    &&& after.service_name == before.service_name
}

/// No command of a channel touches the session of another one, and none loses a session.
pub proof fn commands_keep_to_their_channel<K>(
    gateway: GatewayView<K>,
    key: K,
    text: Seq<char>,
    effort: Option<ReasoningEffort>,
    turn_id: Option<Seq<char>>,
    action: SessionAction,
    thread_id: Option<Seq<char>>,
)
    ensures
        only_session_changed(gateway, gateway.opened(key), key),
        only_session_changed(gateway, gateway.opened(key).called(), key),
        only_session_changed(gateway, gateway.enqueued(key, text), key),
        only_session_changed(gateway, gateway.dequeued(key), key),
        only_session_changed(gateway, gateway.with_model(key, text), key),
        only_session_changed(gateway, gateway.with_effort(key, effort), key),
        only_session_changed(gateway, gateway.with_thread(key, text), key),
        only_session_changed(gateway, gateway.with_thread(key, text).called(), key),
        only_session_changed(gateway, gateway.after_goal_step(key), key),
        gateway.sessions.contains_key(key) ==> only_session_changed(
            gateway,
            gateway.with_active_turn(key, turn_id),
            key,
        ),
        !gateway.sessions.contains_key(key) ==> gateway.with_active_turn(key, turn_id) == gateway,
        gateway.after_session_step(key, action, thread_id).sessions == gateway.sessions
            || only_session_changed(
            gateway,
            gateway.after_session_step(key, action, thread_id),
            key,
        ),
{
}

/// To look a session up does not change what it is, and what is looked up first is fresh.
pub proof fn looking_up_changes_no_session<K>(gateway: GatewayView<K>, key: K)
    ensures
        forall|any: K| #[trigger] gateway.opened(key).session(any) == gateway.session(any),
        gateway.opened(key).sessions.contains_key(key),
        !gateway.sessions.contains_key(key) ==> gateway.opened(key).session(key)
            == fresh_session(gateway.default_model),
        gateway.opened(key).opened(key) == gateway.opened(key),
{
    assert(gateway.opened(key).opened(key) =~= gateway.opened(key));
}

/// One thing that happens to the gateway. Every function that takes a gateway does one of these, or
/// one and then a request.
#[allow(inconsistent_fields)]
pub enum Happening<K> {
    LookUp { key: K },
    Request,
    Enqueue { key: K, prompt: Seq<char> },
    NextTurn { key: K },
    ChooseModel { key: K, model: Seq<char> },
    ChooseEffort { key: K, effort: Option<ReasoningEffort> },
    Goal { key: K },
    Session { key: K, action: SessionAction, thread_id: Option<Seq<char>> },
    TakeThread { key: K, thread_id: Seq<char> },
    TurnStep { key: K, effect: Effect },
}

impl<K> Happening<K> {
    /// The gateway afterwards.
    pub open spec fn on(self, gateway: GatewayView<K>) -> GatewayView<K> {
        match self {
            Happening::LookUp { key } => gateway.opened(key),
            Happening::Request => gateway.called(),
            Happening::Enqueue { key, prompt } => gateway.enqueued(key, prompt),
            Happening::NextTurn { key } => gateway.dequeued(key),
            Happening::ChooseModel { key, model } => gateway.with_model(key, model),
            Happening::ChooseEffort { key, effort } => gateway.with_effort(key, effort),
            Happening::Goal { key } => gateway.after_goal_step(key),
            Happening::Session { key, action, thread_id } => gateway.after_session_step(
                key,
                action,
                thread_id,
            ),
            Happening::TakeThread { key, thread_id } => gateway.with_thread(key, thread_id),
            Happening::TurnStep { key, effect } => effect.on(gateway, key),
        }
    }

    /// Whether it happens in the channel `key`.
    pub open spec fn concerns(self, key: K) -> bool {
        match self {
            Happening::LookUp { key: k } => k == key,
            Happening::Request => false,
            Happening::Enqueue { key: k, .. } => k == key,
            Happening::NextTurn { key: k } => k == key,
            Happening::ChooseModel { key: k, .. } => k == key,
            Happening::ChooseEffort { key: k, .. } => k == key,
            Happening::Goal { key: k } => k == key,
            Happening::Session { key: k, .. } => k == key,
            Happening::TakeThread { key: k, .. } => k == key,
            Happening::TurnStep { key: k, .. } => k == key,
        }
    }

    /// How many requests with a number are made.
    pub open spec fn requests(self, gateway: GatewayView<K>) -> nat {
        match self {
            Happening::Request => 1,
            Happening::Goal { key } => if gateway.session(key).thread_id is Some {
                1
            } else {
                0
            },
            Happening::Session { action: SessionAction::List, .. } => 1,
            Happening::Session { action: SessionAction::Switch, thread_id, .. } => {
                if thread_id is Some {
                    1
                } else {
                    0
                }
            },
            _ => 0,
        }
    }

    /// Whether the channel `key` goes over to a thread.
    pub open spec fn changes_thread(self, key: K) -> bool {
        match self {
            Happening::TakeThread { key: k, .. } => k == key,
            Happening::TurnStep { key: k, effect } => k == key && effect is Thread,
            _ => false,
        }
    }
}

/// The gateway after all of it happened, one after the other.
pub open spec fn after_all<K>(gateway: GatewayView<K>, history: Seq<Happening<K>>) -> GatewayView<K>
    decreases history.len(),
{
    if history.len() == 0 {
        gateway
    } else {
        history.last().on(after_all(gateway, history.drop_last()))
    }
}

/// How many requests with a number are made while all of it happens.
pub open spec fn requests_in<K>(gateway: GatewayView<K>, history: Seq<Happening<K>>) -> nat
    decreases history.len(),
{
    if history.len() == 0 {
        0
    } else {
        let before = after_all(gateway, history.drop_last());
        requests_in(gateway, history.drop_last()) + history.last().requests(before)
    }
}

proof fn lemma_defaults_stay<K>(gateway: GatewayView<K>, history: Seq<Happening<K>>)
    ensures
        after_all(gateway, history).default_model == gateway.default_model,
    decreases history.len(),
{
    if history.len() > 0 {
        lemma_defaults_stay(gateway, history.drop_last());
    }
}

proof fn lemma_model_stays<K>(
    gateway: GatewayView<K>,
    key: K,
    history: Seq<Happening<K>>,
)
    requires
        forall|i: int|
            0 <= i < history.len() ==> !(#[trigger] history[i] matches Happening::ChooseModel {
                key: k,
                ..
            } && k == key),
    ensures
        after_all(gateway, history).session(key).model == gateway.session(key).model,
    decreases history.len(),
{
    if history.len() > 0 {
        let before = history.drop_last();
        assert forall|i: int| 0 <= i < before.len() implies !(
        #[trigger] before[i] matches Happening::ChooseModel { key: k, .. } && k == key) by {
            assert(before[i] == history[i]);
        }
        lemma_model_stays(gateway, key, before);
        lemma_defaults_stay(gateway, before);
        assert(history.last() == history[history.len() - 1]);
    }
}

/// A model that a channel chose is the one that it has, whatever happens, until it chooses again; a
/// channel that never chose has the default. The choice changes nothing else of its session.
pub proof fn a_model_stays_as_chosen<K>(
    gateway: GatewayView<K>,
    key: K,
    model: Seq<char>,
    history: Seq<Happening<K>>,
)
    requires
        forall|i: int|
            0 <= i < history.len() ==> !(#[trigger] history[i] matches Happening::ChooseModel {
                key: k,
                ..
            } && k == key),
    ensures
        gateway.with_model(key, model).session(key) == (SessionView {
            model,
            ..gateway.session(key)
        }),
        after_all(gateway.with_model(key, model), history).session(key).model == model,
        after_all(gateway, history).session(key).model == gateway.session(key).model,
        !gateway.sessions.contains_key(key) ==> after_all(gateway, history).session(key).model
            == gateway.default_model,
{
    lemma_model_stays(gateway, key, history);
    lemma_model_stays(gateway.with_model(key, model), key, history);
}

proof fn lemma_effort_stays<K>(
    gateway: GatewayView<K>,
    key: K,
    history: Seq<Happening<K>>,
)
    requires
        forall|i: int|
            0 <= i < history.len() ==> !(#[trigger] history[i] matches Happening::ChooseEffort {
                key: k,
                ..
            } && k == key),
    ensures
        after_all(gateway, history).session(key).effort == gateway.session(key).effort,
    decreases history.len(),
{
    if history.len() > 0 {
        let before = history.drop_last();
        assert forall|i: int| 0 <= i < before.len() implies !(
        #[trigger] before[i] matches Happening::ChooseEffort { key: k, .. } && k == key) by {
            assert(before[i] == history[i]);
        }
        lemma_effort_stays(gateway, key, before);
        assert(history.last() == history[history.len() - 1]);
    }
}

/// An effort that a channel chose is the one that it has, whatever happens, until it chooses again; a
/// channel that never chose has none. The choice changes nothing else of its session.
pub proof fn an_effort_stays_as_chosen<K>(
    gateway: GatewayView<K>,
    key: K,
    effort: Option<ReasoningEffort>,
    history: Seq<Happening<K>>,
)
    requires
        forall|i: int|
            0 <= i < history.len() ==> !(#[trigger] history[i] matches Happening::ChooseEffort {
                key: k,
                ..
            } && k == key),
    ensures
        gateway.with_effort(key, effort).session(key) == (SessionView {
            effort,
            ..gateway.session(key)
        }),
        after_all(gateway.with_effort(key, effort), history).session(key).effort == effort,
        after_all(gateway, history).session(key).effort == gateway.session(key).effort,
        !gateway.sessions.contains_key(key) ==> after_all(gateway, history).session(key).effort
            == None::<ReasoningEffort>,
{
    lemma_effort_stays(gateway, key, history);
    lemma_effort_stays(gateway.with_effort(key, effort), key, history);
}

proof fn lemma_thread_stays<K>(
    gateway: GatewayView<K>,
    key: K,
    history: Seq<Happening<K>>,
)
    requires
        forall|i: int| 0 <= i < history.len() ==> !(#[trigger] history[i]).changes_thread(key),
    ensures
        after_all(gateway, history).session(key).thread_id == gateway.session(key).thread_id,
    decreases history.len(),
{
    if history.len() > 0 {
        let before = history.drop_last();
        assert forall|i: int| 0 <= i < before.len() implies !(
        #[trigger] before[i]).changes_thread(key) by {
            assert(before[i] == history[i]);
        }
        lemma_thread_stays(gateway, key, before);
        assert(history.last() == history[history.len() - 1]);
    }
}

/// A thread to which a channel went over is the one that it has, whatever happens, until it goes over
/// to another one. That changes nothing else of its session.
pub proof fn a_thread_stays_as_taken<K>(
    gateway: GatewayView<K>,
    key: K,
    thread_id: Seq<char>,
    history: Seq<Happening<K>>,
)
    requires
        forall|i: int| 0 <= i < history.len() ==> !(#[trigger] history[i]).changes_thread(key),
    ensures
        gateway.with_thread(key, thread_id).session(key) == (SessionView {
            thread_id: Some(thread_id),
            ..gateway.session(key)
        }),
        after_all(gateway.with_thread(key, thread_id), history).session(key).thread_id == Some(thread_id),
        after_all(gateway, history).session(key).thread_id == gateway.session(key).thread_id,
        !gateway.sessions.contains_key(key) ==> after_all(gateway, history).session(key).thread_id
            == None::<Seq<char>>,
{
    lemma_thread_stays(gateway, key, history);
    lemma_thread_stays(gateway.with_thread(key, thread_id), key, history);
}

/// Whatever happens in other channels, the session of a channel stays as it is.
pub proof fn a_session_is_left_alone_by_others<K>(
    gateway: GatewayView<K>,
    key: K,
    history: Seq<Happening<K>>,
)
    requires
        forall|i: int| 0 <= i < history.len() ==> !(#[trigger] history[i]).concerns(key),
    ensures
        after_all(gateway, history).session(key) == gateway.session(key),
        after_all(gateway, history).sessions.contains_key(key) <==> gateway.sessions.contains_key(
            key,
        ),
    decreases history.len(),
{
    if history.len() > 0 {
        let before = history.drop_last();
        assert forall|i: int| 0 <= i < before.len() implies !(#[trigger] before[i]).concerns(
            key,
        ) by {
            assert(before[i] == history[i]);
        }
        a_session_is_left_alone_by_others(gateway, key, before);
        lemma_defaults_stay(gateway, before);
        assert(history.last() == history[history.len() - 1]);
    }
}

/// The prompts that joined the queue of `key`, in order.
pub open spec fn asked<K>(history: Seq<Happening<K>>, key: K) -> Seq<Seq<char>>
    decreases history.len(),
{
    if history.len() == 0 {
        Seq::empty()
    } else {
        let before = asked(history.drop_last(), key);
        match history.last() {
            Happening::Enqueue { key: k, prompt } => if k == key {
                before.push(prompt)
            } else {
                before
            },
            _ => before,
        }
    }
}

/// The prompts of which the worker made turns of `key`, in order.
pub open spec fn taken<K>(
    gateway: GatewayView<K>,
    history: Seq<Happening<K>>,
    key: K,
) -> Seq<Seq<char>>
    decreases history.len(),
{
    if history.len() == 0 {
        Seq::empty()
    } else {
        let before = taken(gateway, history.drop_last(), key);
        let found = after_all(gateway, history.drop_last()).next_prompt(key);
        match (history.last(), found) {
            (Happening::NextTurn { key: k }, Some(prompt)) => if k == key {
                before.push(prompt)
            } else {
                before
            },
            _ => before,
        }
    }
}

/// Prompts become turns in the order in which they came and none is lost or made twice, whatever
/// else happens: those of which turns were made, and then those that wait, are those that waited at
/// first, and then those that came.
pub proof fn prompts_become_turns_in_order<K>(
    gateway: GatewayView<K>,
    key: K,
    history: Seq<Happening<K>>,
)
    ensures
        taken(gateway, history, key) + after_all(gateway, history).session(key).queued
            == gateway.session(key).queued + asked(history, key),
    decreases history.len(),
{
    let after = after_all(gateway, history);
    if history.len() == 0 {
        assert(taken(gateway, history, key) + after.session(key).queued
            =~= gateway.session(key).queued + asked(history, key));
    } else {
        let less = history.drop_last();
        let before = after_all(gateway, less);
        prompts_become_turns_in_order(gateway, key, less);
        assert(taken(gateway, history, key) + after.session(key).queued
            =~= gateway.session(key).queued + asked(history, key)) by {
            let old_all = taken(gateway, less, key) + before.session(key).queued;
            match history.last() {
                Happening::Enqueue { key: k, prompt } if k == key => {
                    assert(taken(gateway, history, key) + after.session(key).queued
                        =~= old_all.push(prompt));
                },
                Happening::NextTurn { key: k } if k == key && before.ready(key) => {
                    assert(taken(gateway, history, key) + after.session(key).queued =~= old_all);
                },
                _ => {
                    assert(after.session(key).queued == before.session(key).queued);
                },
            }
        }
    }
}

/// A channel that was switched to a thread shows it, has its goal there and begins its next turn on
/// it.
pub proof fn a_switched_session_is_used<K, E>(
    gateway: GatewayView<K>,
    key: K,
    thread_id: Seq<char>,
    command: GoalCommandView,
    key_text: Seq<char>,
    prompt: Seq<char>,
)
    ensures
        ({
            let switched = gateway.with_thread(key, thread_id);
            let begin = turn_begin::<K, E>(switched, key, key_text, prompt);
            &&& switched.session(key).thread_id == Some(thread_id)
            &&& switched.goal_step(key, command) == GoalStepView::<K>::Call(
                command.call(switched.call_id(), thread_id),
            )
            &&& switched.session_step(key, SessionAction::Show, None)
                == SessionStepView::<K>::Reply(
                session_text(switched.session(key)),
            )
            &&& begin.phase == PhaseView::<E>::StartingTurn { thread_id }
            &&& begin.action matches ActionView::StartTurn(RequestView::TurnStart { params, .. })
            &&& params.thread_id == thread_id
            &&& params.input == seq![prompt]
        }),
{
}

/// A prompt steers exactly a turn that is under way on a thread that is known.
pub proof fn only_an_active_turn_is_steered<K>(
    gateway: GatewayView<K>,
    key: K,
    thread_id: Seq<char>,
    turn_id: Seq<char>,
)
    ensures
        gateway.steerable(key) is Some <==> gateway.session(key).thread_id is Some
            && gateway.session(key).active_turn_id is Some,
        !gateway.sessions.contains_key(key) ==> gateway.steerable(key) is None,
        gateway.sessions.contains_key(key) ==> gateway.with_thread(
            key,
            thread_id,
        ).with_active_turn(key, Some(turn_id)).steerable(key) == Some((thread_id, turn_id)),
        gateway.with_active_turn(key, None).steerable(key) is None,
{
}

/// The number that the requests count up to from `first`: after the largest comes the smallest.
pub open spec fn counted_up(first: i64, count: nat) -> i64 {
    let half: int = 0x8000_0000_0000_0000;
    ((first + count + half) % (2 * half) - half) as i64
}

/// Whatever happens, each request has the id that follows on that of the request before: the next id
/// is further by the number of requests that were made. The first one is 10000, and up to the
/// largest id nothing comes round again.
pub proof fn request_ids_count_up<K>(gateway: GatewayView<K>, history: Seq<Happening<K>>)
    ensures
        ({
            let count = requests_in(gateway, history);
            let next = after_all(gateway, history).call_id();
            &&& next == RequestIdView::Int64(counted_up(gateway.next_request_id, count))
            &&& gateway.next_request_id + count <= i64::MAX ==> next == RequestIdView::Int64(
                (gateway.next_request_id + count) as i64,
            )
            &&& gateway.next_request_id == FIRST_REQUEST_ID && 10_000 + count <= i64::MAX ==> next
                == RequestIdView::Int64((10_000 + count) as i64)
        }),
    decreases history.len(),
{
    if history.len() > 0 {
        request_ids_count_up(gateway, history.drop_last());
    }
}

/// The ids of two requests differ, whatever happens between them, until there were as many requests
/// as there are ids.
pub proof fn request_ids_differ<K>(gateway: GatewayView<K>, history: Seq<Happening<K>>)
    requires
        0 < requests_in(gateway, history) < 0x1_0000_0000_0000_0000,
    ensures
        after_all(gateway, history).call_id() != gateway.call_id(),
{
    request_ids_count_up(gateway, history);
}

/// What is left of a limit is a percentage, and the more is used the less is left.
pub proof fn what_is_left_is_a_percentage(used: int, more: int)
    requires
        used <= more,
    ensures
        0 <= percent_left(used) <= 100,
        percent_left(more) <= percent_left(used),
        0 <= used <= 100 ==> percent_left(used) + used == 100,
{
}

/// The models that are shown are the first of the page, all of them if the page is short.
pub proof fn the_first_models_are_shown(models: Seq<Model>)
    ensures
        shown_models(models).len() <= SHOWN_MODELS,
        shown_models(models).is_prefix_of(models),
        models.len() <= SHOWN_MODELS ==> shown_models(models) == models,
{
}

} // verus!
