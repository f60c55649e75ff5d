//! What holds of every turn, whatever the app-server tells and whatever the output answers.

use vstd::prelude::*;

use crate::api::ReasoningEffort;
use crate::delivery::{lemma_open_messages, no_progress, DeliveryView, PlanView, ProgressView};
use crate::gateway::GatewayView;
use crate::protocol::{IncomingView, ItemView, NotificationView, RequestView};
use crate::text::blank;
use crate::turn::{
    deliver, notified, turn_begin, ActionView, Effect, EndingView, EventView, PhaseView, StepView,
    TurnErrorView, UnderWay,
};

verus! {

/// How many messages the output was told to have started.
pub open spec fn announced<E>(actions: Seq<ActionView<E>>) -> nat
    decreases actions.len(),
{
    if actions.len() == 0 {
        0
    } else {
        announced(actions.drop_last()) + if actions.last() is MessageStarted {
            1nat
        } else {
            0nat
        }
    }
}

/// How many messages the output was told to have finished.
pub open spec fn closed<E>(actions: Seq<ActionView<E>>) -> nat
    decreases actions.len(),
{
    if actions.len() == 0 {
        0
    } else {
        closed(actions.drop_last()) + if actions.last() is MessageFinished {
            1nat
        } else {
            0nat
        }
    }
}

/// How many texts were sent to the output.
pub open spec fn sent<E>(actions: Seq<ActionView<E>>) -> nat
    decreases actions.len(),
{
    if actions.len() == 0 {
        0
    } else {
        sent(actions.drop_last()) + if actions.last() is Send {
            1nat
        } else {
            0nat
        }
    }
}

/// How many starts of messages wait to be delivered.
pub open spec fn starts_in(list: Seq<DeliveryView>) -> nat
    decreases list.len(),
{
    if list.len() == 0 {
        0
    } else {
        (if list.first() is Start {
            1nat
        } else {
            0nat
        }) + starts_in(list.drop_first())
    }
}

/// How many texts wait to be delivered.
pub open spec fn texts_in(list: Seq<DeliveryView>) -> nat
    decreases list.len(),
{
    if list.len() == 0 {
        0
    } else {
        (if list.first() is Text {
            1nat
        } else {
            0nat
        }) + texts_in(list.drop_first())
    }
}

/// How many ends of messages a delivery brings.
pub open spec fn finishes(delivery: DeliveryView) -> nat {
    match delivery {
        DeliveryView::Start => 0,
        DeliveryView::Text { text, finish } => if finish {
            1
        } else {
            0
        },
        DeliveryView::Finish => 1,
    }
}

/// How many ends of messages wait to be delivered.
pub open spec fn finishes_in(list: Seq<DeliveryView>) -> nat
    decreases list.len(),
{
    if list.len() == 0 {
        0
    } else {
        finishes(list.first()) + finishes_in(list.drop_first())
    }
}

/// With `open` messages announced and not closed, and `unsent` announced and not sent, the
/// deliveries close only what is open and send only what is announced.
pub open spec fn orderly(open: int, unsent: int, list: Seq<DeliveryView>) -> bool
    decreases list.len(),
{
    if list.len() == 0 {
        true
    } else {
        match list.first() {
            DeliveryView::Start => orderly(open + 1, unsent + 1, list.drop_first()),
            DeliveryView::Text { text, finish } => {
                &&& unsent >= 1
                &&& open >= finishes(list.first())
                &&& orderly(open - finishes(list.first()), unsent - 1, list.drop_first())
            },
            DeliveryView::Finish => {
                &&& open >= 1
                &&& orderly(open - 1, unsent, list.drop_first())
            },
        }
    }
}

/// No text that waits to be delivered is blank.
pub open spec fn with_substance(list: Seq<DeliveryView>) -> bool {
    forall|i: int|
        0 <= i < list.len() ==> (#[trigger] list[i] matches DeliveryView::Text { text, .. }
            ==> !blank(text))
}

/// A list of deliveries keeps the books of a turn: what it brings is what the progress gains.
pub open spec fn sound(before: ProgressView, plan: PlanView) -> bool {
    &&& plan.progress.wf()
    &&& plan.progress.started.len() == before.started.len() + starts_in(plan.list)
    &&& plan.progress.finished().len() == before.finished().len() + finishes_in(plan.list)
    &&& plan.progress.sent.len() == before.sent.len() + texts_in(plan.list)
    &&& orderly(
        before.started.len() - before.finished().len(),
        before.started.len() - before.sent.len(),
        plan.list,
    )
    &&& with_substance(plan.list)
}

proof fn lemma_append(a: Seq<DeliveryView>, b: Seq<DeliveryView>, open: int, unsent: int)
    ensures
        starts_in(a + b) == starts_in(a) + starts_in(b),
        texts_in(a + b) == texts_in(a) + texts_in(b),
        finishes_in(a + b) == finishes_in(a) + finishes_in(b),
        orderly(open, unsent, a) && orderly(
            open + starts_in(a) - finishes_in(a),
            unsent + starts_in(a) - texts_in(a),
            b,
        ) ==> orderly(open, unsent, a + b),
    decreases a.len(),
{
    if a.len() == 0 {
        assert(a + b =~= b);
    } else {
        assert((a + b).drop_first() =~= a.drop_first() + b);
        assert((a + b).first() == a.first());
        let (open2, unsent2) = match a.first() {
            DeliveryView::Start => (open + 1, unsent + 1),
            DeliveryView::Text { text, finish } => (open - finishes(a.first()), unsent - 1),
            DeliveryView::Finish => (open - 1, unsent),
        };
        lemma_append(a.drop_first(), b, open2, unsent2);
    }
}

proof fn lemma_short_lists(first: DeliveryView, second: DeliveryView)
    ensures
        starts_in(seq![first]) == (if first is Start {
            1nat
        } else {
            0nat
        }),
        texts_in(seq![first]) == (if first is Text {
            1nat
        } else {
            0nat
        }),
        finishes_in(seq![first]) == finishes(first),
        starts_in(seq![first, second]) == starts_in(seq![first]) + starts_in(seq![second]),
        texts_in(seq![first, second]) == texts_in(seq![first]) + texts_in(seq![second]),
        finishes_in(seq![first, second]) == finishes(first) + finishes(second),
{
    reveal_with_fuel(starts_in, 3);
    reveal_with_fuel(texts_in, 3);
    reveal_with_fuel(finishes_in, 3);
    assert(seq![first, second].drop_first() =~= seq![second]);
    assert(seq![first].drop_first() =~= Seq::empty());
    assert(seq![second].drop_first() =~= Seq::empty());
}

proof fn lemma_item_started(progress: ProgressView, item: ItemView)
    requires
        progress.wf(),
    ensures
        sound(progress, progress.item_started(item)),
{
    lemma_open_messages(progress);
    lemma_short_lists(DeliveryView::Start, DeliveryView::Start);
    assert(progress.item_started(item).progress.finished() =~= progress.finished());
    reveal_with_fuel(orderly, 2);
    assert(seq![DeliveryView::Start].drop_first() =~= Seq::empty());
}

proof fn lemma_item_completed(progress: ProgressView, item: ItemView)
    requires
        progress.wf(),
    ensures
        sound(progress, progress.item_completed(item)),
{
    lemma_open_messages(progress);
    if let ItemView::AgentMessage { id, text } = item {
        let body = DeliveryView::Text { text, finish: !progress.finished().contains(id) };
        lemma_short_lists(DeliveryView::Start, body);
        lemma_short_lists(body, body);
        lemma_short_lists(DeliveryView::Finish, body);
        reveal_with_fuel(orderly, 3);
        assert(seq![DeliveryView::Start, body].drop_first() =~= seq![body]);
        assert(seq![body].drop_first() =~= Seq::empty());
        assert(seq![DeliveryView::Finish].drop_first() =~= Seq::empty());
        let after = progress.item_completed(item).progress;
        if !blank(text) && !progress.sent.contains(id) || progress.open.contains(id) {
            assert(after.finished() =~= progress.finished().insert(id));
        }
        if progress.open.contains(id) {
            vstd::set_lib::lemma_len_subset(progress.finished().insert(id), progress.started);
        }
        if progress.started.contains(id) && !progress.sent.contains(id) {
            vstd::set_lib::lemma_len_subset(progress.sent.insert(id), progress.started);
        }
    }
}

proof fn lemma_items_completed(progress: ProgressView, items: Seq<ItemView>)
    requires
        progress.wf(),
    ensures
        sound(progress, progress.items_completed(items)),
    decreases items.len(),
{
    lemma_open_messages(progress);
    if items.len() > 0 {
        let before = progress.items_completed(items.drop_last());
        lemma_items_completed(progress, items.drop_last());
        lemma_item_completed(before.progress, items.last());
        let last = before.progress.item_completed(items.last());
        lemma_append(
            before.list,
            last.list,
            progress.started.len() - progress.finished().len(),
            progress.started.len() - progress.sent.len(),
        );
    }
}

proof fn lemma_close(count: nat, open: int, unsent: int)
    requires
        count <= open,
    ensures
        ({
            let list = Seq::new(count, |i: int| DeliveryView::Finish);
            &&& starts_in(list) == 0
            &&& texts_in(list) == 0
            &&& finishes_in(list) == count
            &&& orderly(open, unsent, list)
        }),
    decreases count,
{
    let list = Seq::new(count, |i: int| DeliveryView::Finish);
    if count > 0 {
        let less = (count - 1) as nat;
        lemma_close(less, open - 1, unsent);
        assert(list.drop_first() =~= Seq::new(less, |i: int| DeliveryView::Finish));
        assert(list.first() == DeliveryView::Finish);
    }
}

proof fn lemma_close_all(progress: ProgressView)
    requires
        progress.wf(),
    ensures
        sound(progress, progress.close_all()),
{
    let plan = progress.close_all();
    lemma_open_messages(progress);
    assert(plan.progress.finished() =~= progress.started);
    lemma_close(
        progress.open.len(),
        progress.open.len() as int,
        progress.started.len() - progress.sent.len(),
    );
}

/// A turn after some events: where it stands and what it asked for.
pub struct RunView<E> {
    pub phase: PhaseView<E>,
    pub actions: Seq<ActionView<E>>,
}

/// A turn that began with `begin`, after `events`.
pub open spec fn run_of<E>(begin: StepView<E>, events: Seq<EventView<E>>) -> RunView<E>
    decreases events.len(),
{
    if events.len() == 0 {
        RunView { phase: begin.phase, actions: seq![begin.action] }
    } else {
        let before = run_of(begin, events.drop_last());
        let step = before.phase.step(events.last());
        RunView { phase: step.phase, actions: before.actions.push(step.action) }
    }
}

/// Every event is one that can come of what the turn asked for before.
pub open spec fn answers<E>(begin: StepView<E>, events: Seq<EventView<E>>) -> bool
    decreases events.len(),
{
    events.len() > 0 ==> {
        &&& answers(begin, events.drop_last())
        &&& run_of(begin, events.drop_last()).phase.awaits(events.last())
    }
}

/// How many ends of messages follow on what is under way.
pub open spec fn owed<E>(under_way: UnderWay<E>) -> nat {
    match under_way {
        UnderWay::Text { finish } => if finish {
            1
        } else {
            0
        },
        _ => 0,
    }
}

/// The books of a turn.
pub open spec fn balanced<E>(run: RunView<E>) -> bool {
    &&& closed(run.actions) <= announced(run.actions)
    &&& sent(run.actions) <= announced(run.actions)
    &&& forall|i: int|
        0 <= i < run.actions.len() ==> (#[trigger] run.actions[i] matches ActionView::Send(text)
            ==> !blank(text))
    &&& match run.phase {
        PhaseView::Receiving { progress, .. } => {
            &&& progress.wf()
            &&& announced(run.actions) == progress.started.len()
            &&& closed(run.actions) == progress.finished().len()
            &&& sent(run.actions) == progress.sent.len()
        },
        PhaseView::Delivering { progress, under_way, rest, ending, .. } => {
            &&& progress.wf()
            &&& announced(run.actions) + starts_in(rest) == progress.started.len()
            &&& sent(run.actions) + texts_in(rest) == progress.sent.len()
            &&& closed(run.actions) + owed(under_way) + finishes_in(rest) == progress.finished().len()
            &&& ending is Fail ==> progress.open.is_empty()
            &&& announced(run.actions) >= closed(run.actions) + owed(under_way)
            &&& orderly(
                announced(run.actions) - closed(run.actions) - owed(under_way),
                announced(run.actions) - sent(run.actions),
                rest,
            )
            &&& with_substance(rest)
        },
        PhaseView::Finished => {
            &&& run.actions.len() > 0
            &&& run.actions.last() matches ActionView::Finish(Err(TurnErrorView::Turn(_)))
                ==> closed(run.actions) == announced(run.actions)
        },
        _ => announced(run.actions) == 0 && closed(run.actions) == 0 && sent(run.actions) == 0,
    }
}

proof fn lemma_push<E>(actions: Seq<ActionView<E>>, action: ActionView<E>)
    ensures
        announced(actions.push(action)) == announced(actions) + (if action is MessageStarted {
            1nat
        } else {
            0nat
        }),
        closed(actions.push(action)) == closed(actions) + (if action is MessageFinished {
            1nat
        } else {
            0nat
        }),
        sent(actions.push(action)) == sent(actions) + (if action is Send {
            1nat
        } else {
            0nat
        }),
{
    assert(actions.push(action).drop_last() =~= actions);
}

/// The books stay balanced when the next delivery is taken from a list that keeps them.
proof fn lemma_deliver<E>(
    actions: Seq<ActionView<E>>,
    thread_id: Seq<char>,
    turn_id: Seq<char>,
    progress: ProgressView,
    list: Seq<DeliveryView>,
    ending: EndingView,
)
    requires
        progress.wf(),
        sent(actions) <= announced(actions),
        closed(actions) <= announced(actions),
        announced(actions) + starts_in(list) == progress.started.len(),
        sent(actions) + texts_in(list) == progress.sent.len(),
        closed(actions) + finishes_in(list) == progress.finished().len(),
        ending is Fail ==> progress.open.is_empty(),
        orderly(
            announced(actions) - closed(actions),
            announced(actions) - sent(actions),
            list,
        ),
        with_substance(list),
        forall|i: int|
            0 <= i < actions.len() ==> (#[trigger] actions[i] matches ActionView::Send(text)
                ==> !blank(text)),
    ensures
        ({
            let step = deliver::<E>(thread_id, turn_id, progress, list, ending);
            balanced(RunView { phase: step.phase, actions: actions.push(step.action) })
        }),
{
    let step = deliver::<E>(thread_id, turn_id, progress, list, ending);
    lemma_push(actions, step.action);
    lemma_open_messages(progress);
    if list.len() > 0 {
        assert(list.first() == list[0]);
        assert forall|i: int| 0 <= i < list.drop_first().len() implies (
        #[trigger] list.drop_first()[i] matches DeliveryView::Text { text, .. } ==> !blank(
            text,
        )) by {
            assert(list.drop_first()[i] == list[i + 1]);
        }
    }
}

proof fn lemma_step_balanced<E>(run: RunView<E>, event: EventView<E>)
    requires
        balanced(run),
        run.phase.awaits(event),
    ensures
        ({
            let step = run.phase.step(event);
            balanced(RunView { phase: step.phase, actions: run.actions.push(step.action) })
        }),
{
    let step = run.phase.step(event);
    lemma_push(run.actions, step.action);
    match run.phase {
        PhaseView::Receiving { thread_id, turn_id, progress } => {
            lemma_open_messages(progress);
            match event {
                EventView::Incoming(Ok(IncomingView::Notification(note))) => {
                    lemma_deliver(
                        run.actions,
                        thread_id,
                        turn_id,
                        progress,
                        Seq::empty(),
                        EndingView::Resume,
                    );
                    match note {
                        NotificationView::ItemStarted { item, .. } => {
                            let plan = progress.item_started(item);
                            lemma_item_started(progress, item);
                            lemma_deliver(
                                run.actions,
                                thread_id,
                                turn_id,
                                plan.progress,
                                plan.list,
                                EndingView::Resume,
                            );
                        },
                        NotificationView::ItemCompleted { item, .. } => {
                            let plan = progress.item_completed(item);
                            lemma_item_completed(progress, item);
                            lemma_deliver(
                                run.actions,
                                thread_id,
                                turn_id,
                                plan.progress,
                                plan.list,
                                EndingView::Resume,
                            );
                        },
                        NotificationView::TurnCompleted { items, .. } => {
                            let plan = progress.items_completed(items);
                            lemma_items_completed(progress, items);
                            lemma_deliver(
                                run.actions,
                                thread_id,
                                turn_id,
                                plan.progress,
                                plan.list,
                                EndingView::Complete,
                            );
                        },
                        NotificationView::Error { error, .. } => {
                            let plan = progress.close_all();
                            lemma_close_all(progress);
                            lemma_deliver(
                                run.actions,
                                thread_id,
                                turn_id,
                                plan.progress,
                                plan.list,
                                EndingView::Fail(error),
                            );
                        },
                        NotificationView::Other => {},
                    }
                },
                _ => {},
            }
        },
        PhaseView::Delivering { thread_id, turn_id, progress, under_way, rest, ending } => {
            if owed(under_way) == 0 {
                lemma_deliver(run.actions, thread_id, turn_id, progress, rest, ending);
            }
        },
        PhaseView::Announcing { .. } => {
            assert(no_progress().finished() =~= Set::empty());
        },
        _ => {},
    }
}

proof fn lemma_run_balanced<E>(begin: StepView<E>, events: Seq<EventView<E>>)
    requires
        begin.phase is StartingThread || begin.phase is StartingTurn,
        begin.action is StartThread || begin.action is StartTurn,
        answers(begin, events),
    ensures
        balanced(run_of(begin, events)),
    decreases events.len(),
{
    if events.len() == 0 {
        lemma_push(Seq::<ActionView<E>>::empty(), begin.action);
        assert(Seq::<ActionView<E>>::empty().push(begin.action) =~= seq![begin.action]);
    } else {
        lemma_run_balanced(begin, events.drop_last());
        lemma_step_balanced(run_of(begin, events.drop_last()), events.last());
    }
}

/// At any point of any turn, no more messages were closed than announced, no more texts were sent
/// than messages announced, and no text that was sent is blank.
pub proof fn no_more_is_closed_or_sent_than_announced<K, E>(
    gateway: GatewayView<K>,
    key: K,
    key_text: Seq<char>,
    prompt: Seq<char>,
    events: Seq<EventView<E>>,
)
    requires
        answers(turn_begin::<K, E>(gateway, key, key_text, prompt), events),
    ensures
        ({
            let actions = run_of(turn_begin::<K, E>(gateway, key, key_text, prompt), events).actions;
            &&& closed(actions) <= announced(actions)
            &&& sent(actions) <= announced(actions)
            &&& forall|i: int|
                0 <= i < actions.len() ==> (#[trigger] actions[i] matches ActionView::Send(text)
                    ==> !blank(text))
        }),
{
    lemma_run_balanced(turn_begin::<K, E>(gateway, key, key_text, prompt), events);
}

/// Whenever a turn waits for the app-server, the output was told as many starts, ends and texts as
/// there are messages on record as announced, closed and sent: none of them was told twice.
pub proof fn each_message_is_told_once<K, E>(
    gateway: GatewayView<K>,
    key: K,
    key_text: Seq<char>,
    prompt: Seq<char>,
    events: Seq<EventView<E>>,
)
    requires
        answers(turn_begin::<K, E>(gateway, key, key_text, prompt), events),
    ensures
        ({
            let run = run_of(turn_begin::<K, E>(gateway, key, key_text, prompt), events);
            run.phase matches PhaseView::Receiving { progress, .. } ==> {
                &&& announced(run.actions) == progress.started.len()
                &&& closed(run.actions) == progress.finished().len()
                &&& sent(run.actions) == progress.sent.len()
            }
        }),
{
    lemma_run_balanced(turn_begin::<K, E>(gateway, key, key_text, prompt), events);
}

/// A turn that fails by an error of the app-server has closed every message that it announced.
pub proof fn a_failed_turn_leaves_no_message_open<K, E>(
    gateway: GatewayView<K>,
    key: K,
    key_text: Seq<char>,
    prompt: Seq<char>,
    events: Seq<EventView<E>>,
)
    requires
        answers(turn_begin::<K, E>(gateway, key, key_text, prompt), events),
    ensures
        ({
            let run = run_of(turn_begin::<K, E>(gateway, key, key_text, prompt), events);
            run.phase is Finished && (run.actions.last() matches ActionView::Finish(
                Err(TurnErrorView::Turn(_)),
            )) ==> closed(run.actions) == announced(run.actions)
        }),
{
    lemma_run_balanced(turn_begin::<K, E>(gateway, key, key_text, prompt), events);
}

/// A message that was sent is not sent again, whatever text it comes with.
pub proof fn a_sent_message_is_not_sent_again(
    progress: ProgressView,
    id: Seq<char>,
    text: Seq<char>,
)
    requires
        progress.wf(),
        progress.sent.contains(id),
    ensures
        progress.item_completed(ItemView::AgentMessage { id, text }) == (PlanView {
            progress,
            list: Seq::empty(),
        }),
{
}

/// When a turn is complete, every message of it that has a text was sent, and every message of it
/// that was announced is closed.
pub proof fn a_complete_turn_leaves_nothing_unsaid(
    progress: ProgressView,
    items: Seq<ItemView>,
    id: Seq<char>,
    text: Seq<char>,
)
    requires
        progress.wf(),
        items.contains(ItemView::AgentMessage { id, text }),
    ensures
        !blank(text) ==> progress.items_completed(items).progress.sent.contains(id),
        progress.items_completed(items).progress.started.contains(id)
            ==> progress.items_completed(items).progress.finished().contains(id),
    decreases items.len(),
{
    let item = ItemView::AgentMessage { id, text };
    let last = items.last();
    let before = progress.items_completed(items.drop_last());
    lemma_items_completed(progress, items.drop_last());
    lemma_item_completed(before.progress, last);
    if last != item {
        let i = choose|i: int| 0 <= i < items.len() && items[i] == item;
        assert(items.drop_last()[i] == item);
        a_complete_turn_leaves_nothing_unsaid(progress, items.drop_last(), id, text);
    }
}

/// A turn that ends is no longer the active one of its channel, unless it never became active or
/// the connection to the app-server broke; then the session is left as it is.
pub proof fn an_ended_turn_is_not_active<K, E>(
    gateway: GatewayView<K>,
    key: K,
    phase: PhaseView<E>,
    event: EventView<E>,
)
    requires
        phase.awaits(event),
        phase.step(event).action is Finish,
    ensures
        ({
            let after = phase.step(event).effect.on(gateway, key);
            if event is Output || event matches EventView::Incoming(Ok(_)) {
                after.session(key).active_turn_id is None
            } else {
                after == gateway
            }
        }),
{
}

/// A turn changes nothing but the thread and the active turn of its own channel.
pub proof fn a_turn_keeps_to_its_channel<K, E>(
    gateway: GatewayView<K>,
    key: K,
    phase: PhaseView<E>,
    event: EventView<E>,
)
    ensures
        ({
            let after = phase.step(event).effect.on(gateway, key);
            &&& forall|other: K| other != key ==> #[trigger] after.session(other)
                == gateway.session(other)
            &&& after.session(key).model == gateway.session(key).model
            &&& after.session(key).effort == gateway.session(key).effort
            &&& after.session(key).queued == gateway.session(key).queued
            &&& after.next_request_id == gateway.next_request_id
        }),
{
}

/// The thread and the turn that a notification is about.
pub open spec fn subject(note: NotificationView) -> Option<(Seq<char>, Seq<char>)> {
    match note {
        NotificationView::ItemStarted { thread_id, turn_id, .. } => Some((thread_id, turn_id)),
        NotificationView::ItemCompleted { thread_id, turn_id, .. } => Some((thread_id, turn_id)),
        NotificationView::TurnCompleted { thread_id, turn_id, .. } => Some((thread_id, turn_id)),
        NotificationView::Error { thread_id, turn_id, .. } => Some((thread_id, turn_id)),
        NotificationView::Other => None,
    }
}

/// What the app-server tells of other threads and turns leaves a turn as it is.
pub proof fn foreign_notifications_change_nothing<E>(
    thread_id: Seq<char>,
    turn_id: Seq<char>,
    progress: ProgressView,
    note: NotificationView,
)
    requires
        subject(note) != Some((thread_id, turn_id)),
    ensures
        notified::<E>(thread_id, turn_id, progress, note) == (StepView {
            phase: PhaseView::<E>::Receiving { thread_id, turn_id, progress },
            action: ActionView::Receive,
            effect: Effect::Nothing,
        }),
{
}

/// The settings that a turn asks for are those that its session had when it began.
pub open spec fn asks_with_settings<K, E>(
    gateway: GatewayView<K>,
    key: K,
    prompt: Seq<char>,
    action: ActionView<E>,
) -> bool {
    match action {
        ActionView::StartThread(params) => {
            &&& params.model == Some(gateway.session(key).model)
            &&& params.cwd == gateway.default_cwd
            &&& params.service_name == gateway.service_name
        },
        ActionView::StartTurn(request) => {
            &&& request matches RequestView::TurnStart { params, .. }
            &&& params.model == Some(gateway.session(key).model)
            &&& params.effort == gateway.session(key).effort
            &&& params.cwd == gateway.default_cwd
            &&& params.input == seq![prompt]
        },
        _ => true,
    }
}

/// Whatever happens while a turn is under way, it asks for its thread and for itself with the
/// prompt that was queued and with the settings that its session had when it began.
pub proof fn a_turn_keeps_the_settings_it_began_with<K, E>(
    gateway: GatewayView<K>,
    key: K,
    key_text: Seq<char>,
    prompt: Seq<char>,
    events: Seq<EventView<E>>,
)
    requires
        answers(turn_begin::<K, E>(gateway, key, key_text, prompt), events),
    ensures
        ({
            let run = run_of(turn_begin::<K, E>(gateway, key, key_text, prompt), events);
            &&& forall|i: int|
                0 <= i < run.actions.len() ==> asks_with_settings(
                    gateway,
                    key,
                    prompt,
                    #[trigger] run.actions[i],
                )
            &&& run.phase is StartingThread ==> run.phase == turn_begin::<K, E>(
                gateway,
                key,
                key_text,
                prompt,
            ).phase
        }),
    decreases events.len(),
{
    if events.len() > 0 {
        a_turn_keeps_the_settings_it_began_with(
            gateway,
            key,
            key_text,
            prompt,
            events.drop_last(),
        );
    }
}

/// A model that was chosen is the one that the next turn of the channel asks for, even on a new
/// thread.
pub proof fn a_chosen_model_applies_to_the_next_turn<K, E>(
    gateway: GatewayView<K>,
    key: K,
    model: Seq<char>,
    key_text: Seq<char>,
    prompt: Seq<char>,
    events: Seq<EventView<E>>,
)
    requires
        answers(
            turn_begin::<K, E>(gateway.with_model(key, model), key, key_text, prompt),
            events,
        ),
    ensures
        ({
            let actions = run_of(
                turn_begin::<K, E>(gateway.with_model(key, model), key, key_text, prompt),
                events,
            ).actions;
            forall|i: int|
                0 <= i < actions.len() ==> match #[trigger] actions[i] {
                    ActionView::StartThread(params) => params.model == Some(model),
                    ActionView::StartTurn(RequestView::TurnStart { params, .. }) => params.model
                        == Some(model),
                    _ => true,
                }
        }),
{
    a_turn_keeps_the_settings_it_began_with(
        gateway.with_model(key, model),
        key,
        key_text,
        prompt,
        events,
    );
    let actions = run_of(
        turn_begin::<K, E>(gateway.with_model(key, model), key, key_text, prompt),
        events,
    ).actions;
    assert forall|i: int| 0 <= i < actions.len() implies match #[trigger] actions[i] {
        ActionView::StartThread(params) => params.model == Some(model),
        ActionView::StartTurn(RequestView::TurnStart { params, .. }) => params.model == Some(model),
        _ => true,
    } by {
        assert(asks_with_settings(gateway.with_model(key, model), key, prompt, actions[i]));
    }
}

/// An effort that was chosen is the one that the next turn of the channel asks for.
pub proof fn a_chosen_effort_applies_to_the_next_turn<K, E>(
    gateway: GatewayView<K>,
    key: K,
    effort: Option<ReasoningEffort>,
    key_text: Seq<char>,
    prompt: Seq<char>,
    events: Seq<EventView<E>>,
)
    requires
        answers(
            turn_begin::<K, E>(gateway.with_effort(key, effort), key, key_text, prompt),
            events,
        ),
    ensures
        ({
            let actions = run_of(
                turn_begin::<K, E>(gateway.with_effort(key, effort), key, key_text, prompt),
                events,
            ).actions;
            forall|i: int|
                0 <= i < actions.len() ==> (#[trigger] actions[i] matches ActionView::StartTurn(
                    RequestView::TurnStart { params, .. },
                ) ==> params.effort == effort)
        }),
{
    a_turn_keeps_the_settings_it_began_with(
        gateway.with_effort(key, effort),
        key,
        key_text,
        prompt,
        events,
    );
    let actions = run_of(
        turn_begin::<K, E>(gateway.with_effort(key, effort), key, key_text, prompt),
        events,
    ).actions;
    assert forall|i: int| 0 <= i < actions.len() implies (
    #[trigger] actions[i] matches ActionView::StartTurn(RequestView::TurnStart { params, .. })
        ==> params.effort == effort) by {
        assert(asks_with_settings(gateway.with_effort(key, effort), key, prompt, actions[i]));
    }
}

/// A turn says once that it is finished, and then asks for nothing more.
pub proof fn a_turn_finishes_once<K, E>(
    gateway: GatewayView<K>,
    key: K,
    key_text: Seq<char>,
    prompt: Seq<char>,
    events: Seq<EventView<E>>,
)
    requires
        answers(turn_begin::<K, E>(gateway, key, key_text, prompt), events),
    ensures
        ({
            let run = run_of(turn_begin::<K, E>(gateway, key, key_text, prompt), events);
            &&& run.actions.len() == events.len() + 1
            &&& run.phase is Finished <==> run.actions.last() is Finish
            &&& forall|i: int|
                0 <= i < run.actions.len() - 1 ==> !(#[trigger] run.actions[i] is Finish)
        }),
    decreases events.len(),
{
    if events.len() > 0 {
        a_turn_finishes_once(gateway, key, key_text, prompt, events.drop_last());
    }
}

/// What the output is told for a list of deliveries.
pub open spec fn tellings<E>(list: Seq<DeliveryView>) -> Seq<ActionView<E>>
    decreases list.len(),
{
    if list.len() == 0 {
        Seq::empty()
    } else {
        (match list.first() {
            DeliveryView::Start => seq![ActionView::<E>::MessageStarted],
            DeliveryView::Text { text, finish } => if finish {
                seq![ActionView::<E>::Send(text), ActionView::<E>::MessageFinished]
            } else {
                seq![ActionView::<E>::Send(text)]
            },
            DeliveryView::Finish => seq![ActionView::<E>::MessageFinished],
        }) + tellings(list.drop_first())
    }
}

/// Answers of an output that takes everything.
pub open spec fn accepts<E>(count: nat) -> Seq<EventView<E>> {
    Seq::new(count, |i: int| EventView::<E>::Output(Ok(())))
}

/// A turn after its first event is the turn that begins with the step of that event.
proof fn lemma_run_from_first<E>(begin: StepView<E>, events: Seq<EventView<E>>)
    requires
        events.len() > 0,
    ensures
        ({
            let later = run_of(begin.phase.step(events.first()), events.drop_first());
            run_of(begin, events) == (RunView {
                phase: later.phase,
                actions: seq![begin.action] + later.actions,
            })
        }),
    decreases events.len(),
{
    let second = begin.phase.step(events.first());
    if events.len() == 1 {
        assert(events.drop_last() =~= Seq::empty());
        assert(events.drop_first() =~= Seq::empty());
        reveal_with_fuel(run_of, 2);
        assert(run_of(begin, events).actions =~= seq![begin.action] + seq![second.action]);
    } else {
        lemma_run_from_first(begin, events.drop_last());
        assert(events.drop_last().drop_first() =~= events.drop_first().drop_last());
        assert(events.drop_last().first() == events.first());
        assert(events.drop_first().last() == events.last());
        let later = run_of(second, events.drop_first());
        assert(run_of(begin, events).actions =~= seq![begin.action] + later.actions);
    }
}

/// An output that takes everything is told all that a notification brings, in order, and then the
/// turn goes on or ends as the notification asks.
pub proof fn everything_planned_is_told<E>(
    thread_id: Seq<char>,
    turn_id: Seq<char>,
    progress: ProgressView,
    list: Seq<DeliveryView>,
    ending: EndingView,
)
    ensures
        ({
            let begin = deliver::<E>(thread_id, turn_id, progress, list, ending);
            let end = deliver::<E>(thread_id, turn_id, progress, Seq::empty(), ending);
            let told = tellings::<E>(list);
            run_of(begin, accepts(told.len())) == (RunView {
                phase: end.phase,
                actions: told.push(end.action),
            })
        }),
    decreases list.len(),
{
    let begin = deliver::<E>(thread_id, turn_id, progress, list, ending);
    let end = deliver::<E>(thread_id, turn_id, progress, Seq::empty(), ending);
    let told = tellings::<E>(list);
    if list.len() == 0 {
        assert(list =~= Seq::empty());
        assert(accepts::<E>(0) =~= Seq::empty());
        assert(told.push(end.action) =~= seq![end.action]);
    } else {
        let rest = list.drop_first();
        everything_planned_is_told::<E>(thread_id, turn_id, progress, rest, ending);
        let later = tellings::<E>(rest);
        let next = deliver::<E>(thread_id, turn_id, progress, rest, ending);
        lemma_run_from_first(begin, accepts(told.len()));
        if list.first() matches DeliveryView::Text { text, finish } && finish {
            let middle = begin.phase.step(EventView::Output(Ok(())));
            assert(accepts::<E>(told.len()).drop_first() =~= accepts::<E>(later.len() + 1));
            lemma_run_from_first(middle, accepts(later.len() + 1));
            assert(accepts::<E>(later.len() + 1).drop_first() =~= accepts::<E>(later.len()));
            assert(middle.phase.step(EventView::Output(Ok(()))) == next);
        } else {
            assert(accepts::<E>(told.len()).drop_first() =~= accepts::<E>(later.len()));
            assert(begin.phase.step(EventView::Output(Ok(()))) == next);
        }
        assert(run_of(begin, accepts(told.len())).actions =~= told.push(end.action));
    }
}

/// A text that the output refuses still has its message closed, and then the turn fails: with the
/// refusal of the text, or with that of the close if there is one.
pub proof fn a_refused_text_still_closes_its_message<E>(
    thread_id: Seq<char>,
    turn_id: Seq<char>,
    progress: ProgressView,
    rest: Seq<DeliveryView>,
    ending: EndingView,
    refusal: E,
    answer: Result<(), E>,
)
    ensures
        ({
            let phase = PhaseView::Delivering {
                thread_id,
                turn_id,
                progress,
                under_way: UnderWay::Text { finish: true },
                rest,
                ending,
            };
            let close = phase.step(EventView::Output(Err(refusal)));
            let end = close.phase.step(EventView::Output(answer));
            &&& close.action == ActionView::<E>::MessageFinished
            &&& end.action == ActionView::Finish(
                Err(
                    TurnErrorView::Outside(
                        match answer {
                            Ok(()) => refusal,
                            Err(error) => error,
                        },
                    ),
                ),
            )
            &&& end.effect == Effect::NoActiveTurn
        }),
{
}

/// Closing every open message leaves none to close, and a message that is closed is not closed
/// again, however it comes up.
pub proof fn a_closed_message_is_not_closed_again(
    progress: ProgressView,
    id: Seq<char>,
    text: Seq<char>,
)
    requires
        progress.wf(),
    ensures
        ({
            let after = progress.close_all().progress;
            &&& after.wf()
            &&& after.finished() == progress.started
            &&& after.close_all() == (PlanView { progress: after, list: Seq::empty() })
        }),
        progress.finished().contains(id) ==> ({
            let plan = progress.item_completed(ItemView::AgentMessage { id, text });
            &&& finishes_in(plan.list) == 0
            &&& plan.progress.finished().contains(id)
        }),
{
    let after = progress.close_all().progress;
    assert(after.finished() =~= progress.started);
    assert(after.close_all().list =~= Seq::empty());
    let body = DeliveryView::Text { text, finish: false };
    lemma_short_lists(body, body);
}

/// The texts that were sent to the output.
pub open spec fn told_texts<E>(actions: Seq<ActionView<E>>) -> Seq<Seq<char>>
    decreases actions.len(),
{
    if actions.len() == 0 {
        Seq::empty()
    } else {
        let before = told_texts(actions.drop_last());
        match actions.last() {
            ActionView::Send(text) => before.push(text),
            _ => before,
        }
    }
}

/// The texts of a list of deliveries.
pub open spec fn list_texts(list: Seq<DeliveryView>) -> Seq<Seq<char>>
    decreases list.len(),
{
    if list.len() == 0 {
        Seq::empty()
    } else {
        let before = list_texts(list.drop_last());
        match list.last() {
            DeliveryView::Text { text, .. } => before.push(text),
            _ => before,
        }
    }
}

/// Whether one of the items is the message `id` with a text that is not blank.
pub open spec fn has_text(items: Seq<ItemView>, id: Seq<char>) -> bool {
    exists|i: int|
        0 <= i < items.len() && (#[trigger] items[i] matches ItemView::AgentMessage {
            id: other,
            text,
        } && other == id && !blank(text))
}

/// The first text of each message that is not blank, in order.
pub open spec fn first_texts(items: Seq<ItemView>) -> Seq<Seq<char>>
    decreases items.len(),
{
    if items.len() == 0 {
        Seq::empty()
    } else {
        let before = first_texts(items.drop_last());
        match items.last() {
            ItemView::AgentMessage { id, text } => if !blank(text) && !has_text(
                items.drop_last(),
                id,
            ) {
                before.push(text)
            } else {
                before
            },
            ItemView::Other => before,
        }
    }
}

/// The thread and the turn that were started, once both are known.
pub open spec fn place_of<E>(begin: StepView<E>, events: Seq<EventView<E>>) -> Option<
    (Seq<char>, Seq<char>),
> {
    match (thread_of(begin, events), turn_of(events)) {
        (Some(thread_id), Some(turn_id)) => Some((thread_id, turn_id)),
        _ => None,
    }
}

/// The thread of a turn: the one that was started for it, or the one on which it began.
pub open spec fn thread_of<E>(begin: StepView<E>, events: Seq<EventView<E>>) -> Option<Seq<char>>
    decreases events.len(),
{
    if events.len() == 0 {
        match begin.phase {
            PhaseView::StartingTurn { thread_id } => Some(thread_id),
            _ => None,
        }
    } else {
        match events.last() {
            EventView::Thread(Ok(thread_id)) => Some(thread_id),
            _ => thread_of(begin, events.drop_last()),
        }
    }
}

/// The id of a turn that was started.
pub open spec fn turn_of<E>(events: Seq<EventView<E>>) -> Option<Seq<char>>
    decreases events.len(),
{
    if events.len() == 0 {
        None
    } else {
        match events.last() {
            EventView::Turn(Ok(turn_id)) => Some(turn_id),
            _ => turn_of(events.drop_last()),
        }
    }
}

/// The notification that an event brings, if it is about the thread and the turn of `place`.
pub open spec fn own_note<E>(
    place: Option<(Seq<char>, Seq<char>)>,
    event: EventView<E>,
) -> Option<NotificationView> {
    match event {
        EventView::Incoming(Ok(IncomingView::Notification(note))) => if subject(note) is Some
            && subject(note) == place {
            Some(note)
        } else {
            None
        },
        _ => None,
    }
}

/// The items of a turn that were completed, in order: those told one by one and those told at the
/// end.
pub open spec fn completed_items<E>(
    place: Option<(Seq<char>, Seq<char>)>,
    events: Seq<EventView<E>>,
) -> Seq<ItemView>
    decreases events.len(),
{
    if events.len() == 0 {
        Seq::empty()
    } else {
        let before = completed_items(place, events.drop_last());
        match own_note(place, events.last()) {
            Some(NotificationView::ItemCompleted { item, .. }) => before.push(item),
            Some(NotificationView::TurnCompleted { items, .. }) => before + items,
            _ => before,
        }
    }
}

/// The first notification that ends a turn: that it is complete, or that it failed.
pub open spec fn first_ending<E>(
    place: Option<(Seq<char>, Seq<char>)>,
    events: Seq<EventView<E>>,
) -> Option<NotificationView>
    decreases events.len(),
{
    if events.len() == 0 {
        None
    } else {
        match (first_ending(place, events.drop_last()), own_note(place, events.last())) {
            (Some(note), _) => Some(note),
            (None, Some(note)) => if note is TurnCompleted || note is Error {
                Some(note)
            } else {
                None
            },
            (None, None) => None,
        }
    }
}

/// The error that an event brings.
pub open spec fn error_of<E>(event: EventView<E>) -> Option<E> {
    match event {
        EventView::Thread(Err(error)) => Some(error),
        EventView::Turn(Err(error)) => Some(error),
        EventView::Output(Err(error)) => Some(error),
        EventView::Incoming(Err(error)) => Some(error),
        _ => None,
    }
}

/// The last error among the events, if one of them was an error.
pub open spec fn last_error<E>(events: Seq<EventView<E>>) -> Option<E>
    decreases events.len(),
{
    if events.len() == 0 {
        None
    } else {
        match error_of(events.last()) {
            Some(error) => Some(error),
            None => last_error(events.drop_last()),
        }
    }
}

/// A progress has on record as sent what has a text among the items.
pub open spec fn records(progress: ProgressView, items: Seq<ItemView>) -> bool {
    forall|id: Seq<char>| #[trigger] progress.sent.contains(id) <==> has_text(items, id)
}

/// Why a turn will end, by the notification that ends it.
pub open spec fn ending_of(note: Option<NotificationView>) -> EndingView {
    match note {
        Some(NotificationView::TurnCompleted { .. }) => EndingView::Complete,
        Some(NotificationView::Error { error, .. }) => EndingView::Fail(error),
        _ => EndingView::Resume,
    }
}

/// What a turn knows after some events.
pub open spec fn well_informed<E>(begin: StepView<E>, events: Seq<EventView<E>>) -> bool {
    let run = run_of(begin, events);
    let place = place_of(begin, events);
    let items = completed_items(place, events);
    let ending = ending_of(first_ending(place, events));
    match run.phase {
        PhaseView::Receiving { thread_id, turn_id, progress } => {
            &&& place == Some((thread_id, turn_id))
            &&& last_error(events) is None
            &&& first_ending(place, events) is None
            &&& records(progress, items)
            &&& told_texts(run.actions) == first_texts(items)
        },
        PhaseView::Delivering { thread_id, turn_id, progress, under_way, rest, ending: told } => {
            &&& place == Some((thread_id, turn_id))
            &&& last_error(events) == (match under_way {
                UnderWay::Finish { failure } => failure,
                _ => None,
            })
            &&& told == ending
            &&& first_ending(place, events) is None <==> told is Resume
            &&& told !is Fail ==> records(progress, items)
            &&& told !is Fail ==> told_texts(run.actions) + list_texts(rest) == first_texts(items)
        },
        PhaseView::Finished => {
            &&& run.actions.len() > 0
            &&& match last_error(events) {
                Some(error) => run.actions.last() == ActionView::Finish(
                    Err(TurnErrorView::Outside(error)),
                ),
                None => {
                    &&& first_ending(place, events) is Some
                    &&& match ending {
                        EndingView::Complete => {
                            &&& run.actions.last() == ActionView::<E>::Finish(Ok(()))
                            &&& told_texts(run.actions) == first_texts(items)
                        },
                        EndingView::Fail(error) => run.actions.last() == ActionView::<E>::Finish(
                            Err(TurnErrorView::Turn(error)),
                        ),
                        EndingView::Resume => false,
                    }
                },
            }
        },
        _ => {
            &&& told_texts(run.actions) == Seq::<Seq<char>>::empty()
            &&& last_error(events) is None
            &&& forall|any: Option<(Seq<char>, Seq<char>)>| #[trigger]
                first_ending(any, events) is None
            &&& forall|any: Option<(Seq<char>, Seq<char>)>| #[trigger]
                completed_items(any, events) == Seq::<ItemView>::empty()
            &&& run.phase matches PhaseView::StartingTurn { thread_id } ==> thread_of(begin, events)
                == Some(thread_id)
            &&& run.phase matches PhaseView::Announcing { thread_id, turn_id } ==> place == Some(
                (thread_id, turn_id),
            )
        },
    }
}

proof fn lemma_list_texts(a: Seq<DeliveryView>, b: Seq<DeliveryView>)
    ensures
        list_texts(a + b) == list_texts(a) + list_texts(b),
    decreases b.len(),
{
    if b.len() == 0 {
        assert(a + b =~= a);
        assert(list_texts(a) + list_texts(b) =~= list_texts(a));
    } else {
        assert((a + b).drop_last() =~= a + b.drop_last());
        lemma_list_texts(a, b.drop_last());
        assert(list_texts(a + b) =~= list_texts(a) + list_texts(b));
    }
}

proof fn lemma_one_text(delivery: DeliveryView)
    ensures
        list_texts(seq![delivery]) == (match delivery {
            DeliveryView::Text { text, .. } => seq![text],
            _ => Seq::empty(),
        }),
{
    reveal_with_fuel(list_texts, 2);
    assert(seq![delivery].drop_last() =~= Seq::empty());
    assert(seq![delivery].last() == delivery);
    if let DeliveryView::Text { text, .. } = delivery {
        assert(Seq::<Seq<char>>::empty().push(text) =~= seq![text]);
    }
}

proof fn lemma_has_text(items: Seq<ItemView>, item: ItemView, id: Seq<char>)
    ensures
        has_text(items.push(item), id) <==> has_text(items, id) || (
        item matches ItemView::AgentMessage { id: other, text } && other == id && !blank(text)),
{
    let all = items.push(item);
    if has_text(items, id) {
        let i = choose|i: int|
            0 <= i < items.len() && (#[trigger] items[i] matches ItemView::AgentMessage {
                id: other,
                text,
            } && other == id && !blank(text));
        assert(all[i] == items[i]);
    }
    assert(all[items.len() as int] == item);
    if has_text(all, id) {
        let i = choose|i: int|
            0 <= i < all.len() && (#[trigger] all[i] matches ItemView::AgentMessage {
                id: other,
                text,
            } && other == id && !blank(text));
        if i < items.len() {
            assert(all[i] == items[i]);
        }
    }
}

proof fn lemma_completed_texts(progress: ProgressView, items: Seq<ItemView>, item: ItemView)
    requires
        records(progress, items),
    ensures
        ({
            let plan = progress.item_completed(item);
            &&& records(plan.progress, items.push(item))
            &&& first_texts(items.push(item)) == first_texts(items) + list_texts(plan.list)
        }),
{
    let plan = progress.item_completed(item);
    let all = items.push(item);
    assert(all.drop_last() =~= items);
    assert forall|id: Seq<char>| #[trigger] plan.progress.sent.contains(id) <==> has_text(
        all,
        id,
    ) by {
        lemma_has_text(items, item, id);
        assert(progress.sent.contains(id) <==> has_text(items, id));
    }
    if let ItemView::AgentMessage { id, text } = item {
        assert(progress.sent.contains(id) <==> has_text(items, id));
        let body = DeliveryView::Text { text, finish: !progress.finished().contains(id) };
        lemma_one_text(DeliveryView::Start);
        lemma_one_text(body);
        lemma_one_text(DeliveryView::Finish);
        lemma_list_texts(seq![DeliveryView::Start], seq![body]);
        assert(seq![DeliveryView::Start] + seq![body] =~= seq![DeliveryView::Start, body]);
    }
    assert(first_texts(all) =~= first_texts(items) + list_texts(plan.list));
}

proof fn lemma_all_completed_texts(
    progress: ProgressView,
    items: Seq<ItemView>,
    more: Seq<ItemView>,
)
    requires
        records(progress, items),
    ensures
        ({
            let plan = progress.items_completed(more);
            &&& records(plan.progress, items + more)
            &&& first_texts(items + more) == first_texts(items) + list_texts(plan.list)
        }),
    decreases more.len(),
{
    if more.len() == 0 {
        assert(items + more =~= items);
        assert(first_texts(items) + Seq::<Seq<char>>::empty() =~= first_texts(items));
    } else {
        let before = progress.items_completed(more.drop_last());
        let last = before.progress.item_completed(more.last());
        lemma_all_completed_texts(progress, items, more.drop_last());
        lemma_completed_texts(before.progress, items + more.drop_last(), more.last());
        lemma_list_texts(before.list, last.list);
        assert(items + more =~= (items + more.drop_last()).push(more.last()));
        assert(first_texts(items + more) =~= first_texts(items) + list_texts(
            progress.items_completed(more).list,
        ));
    }
}

proof fn lemma_started_texts(progress: ProgressView, item: ItemView)
    ensures
        list_texts(progress.item_started(item).list) == Seq::<Seq<char>>::empty(),
        progress.item_started(item).progress.sent == progress.sent,
{
    lemma_one_text(DeliveryView::Start);
}

/// What is told and what waits to be told stays the same when the next delivery is taken.
proof fn lemma_deliver_texts<E>(
    actions: Seq<ActionView<E>>,
    thread_id: Seq<char>,
    turn_id: Seq<char>,
    progress: ProgressView,
    list: Seq<DeliveryView>,
    ending: EndingView,
)
    ensures
        ({
            let step = deliver::<E>(thread_id, turn_id, progress, list, ending);
            let after = actions.push(step.action);
            match step.phase {
                PhaseView::Delivering { rest, .. } => told_texts(after) + list_texts(rest)
                    == told_texts(actions) + list_texts(list),
                _ => told_texts(after) == told_texts(actions) + list_texts(list),
            }
        }),
{
    let step = deliver::<E>(thread_id, turn_id, progress, list, ending);
    let after = actions.push(step.action);
    assert(after.drop_last() =~= actions);
    if list.len() > 0 {
        let rest = list.drop_first();
        lemma_one_text(list.first());
        lemma_list_texts(seq![list.first()], rest);
        assert(seq![list.first()] + rest =~= list);
        assert(told_texts(after) + list_texts(rest) =~= told_texts(actions) + list_texts(list));
    } else {
        assert(told_texts(actions) + list_texts(list) =~= told_texts(actions));
    }
}

proof fn lemma_notified_informed<E>(
    begin: StepView<E>,
    events: Seq<EventView<E>>,
    note: NotificationView,
)
    requires
        events.len() > 0,
        well_informed(begin, events.drop_last()),
        run_of(begin, events.drop_last()).phase is Receiving,
        events.last() == EventView::<E>::Incoming(Ok(IncomingView::Notification(note))),
    ensures
        well_informed(begin, events),
{
    let before = run_of(begin, events.drop_last());
    let place = place_of(begin, events);
    let old_items = completed_items(place, events.drop_last());
    assert(place == place_of(begin, events.drop_last()));
    if let PhaseView::Receiving { thread_id, turn_id, progress } = before.phase {
        let (plan, ending) = match note {
            NotificationView::ItemStarted { item, .. } => (
                progress.item_started(item),
                EndingView::Resume,
            ),
            NotificationView::ItemCompleted { item, .. } => (
                progress.item_completed(item),
                EndingView::Resume,
            ),
            NotificationView::TurnCompleted { items, .. } => (
                progress.items_completed(items),
                EndingView::Complete,
            ),
            NotificationView::Error { error, .. } => (
                progress.close_all(),
                EndingView::Fail(error),
            ),
            NotificationView::Other => (
                PlanView { progress, list: Seq::empty() },
                EndingView::Resume,
            ),
        };
        match note {
            NotificationView::ItemStarted { item, .. } => {
                lemma_started_texts(progress, item);
                assert(first_texts(old_items) + Seq::<Seq<char>>::empty() =~= first_texts(
                    old_items,
                ));
                assert forall|id: Seq<char>| #[trigger]
                    plan.progress.sent.contains(id) <==> has_text(old_items, id) by {
                    assert(progress.sent.contains(id) <==> has_text(old_items, id));
                }
            },
            NotificationView::ItemCompleted { item, .. } => {
                lemma_completed_texts(progress, old_items, item);
            },
            NotificationView::TurnCompleted { items, .. } => {
                lemma_all_completed_texts(progress, old_items, items);
            },
            _ => {},
        }
        lemma_deliver_texts(
            before.actions,
            thread_id,
            turn_id,
            plan.progress,
            plan.list,
            ending,
        );
        lemma_deliver_texts(
            before.actions,
            thread_id,
            turn_id,
            progress,
            Seq::empty(),
            EndingView::Resume,
        );
        assert(told_texts(before.actions) + Seq::<Seq<char>>::empty() =~= told_texts(
            before.actions,
        ));
    }
}

proof fn lemma_well_informed<E>(begin: StepView<E>, events: Seq<EventView<E>>)
    requires
        begin.phase is StartingThread || begin.phase is StartingTurn,
        begin.action is StartThread || begin.action is StartTurn,
        answers(begin, events),
    ensures
        well_informed(begin, events),
    decreases events.len(),
{
    if events.len() == 0 {
        reveal_with_fuel(told_texts, 2);
        assert(seq![begin.action].drop_last() =~= Seq::empty());
    } else {
        lemma_well_informed(begin, events.drop_last());
        let before = run_of(begin, events.drop_last());
        let run = run_of(begin, events);
        assert(run.actions.drop_last() =~= before.actions);
        match before.phase {
            PhaseView::Receiving { .. } => {
                match events.last() {
                    EventView::Incoming(Ok(IncomingView::Notification(note))) => {
                        lemma_notified_informed(begin, events, note);
                    },
                    _ => {},
                }
            },
            PhaseView::Delivering { thread_id, turn_id, progress, under_way, rest, ending } => {
                lemma_deliver_texts(before.actions, thread_id, turn_id, progress, rest, ending);
            },
            PhaseView::Announcing { .. } => {
                let place = place_of(begin, events);
                assert(place == place_of(begin, events.drop_last()));
                assert(first_ending(place, events.drop_last()) is None);
                assert(completed_items(place, events.drop_last()) == Seq::<ItemView>::empty());
            },
            PhaseView::Finished => {},
            _ => {
                assert forall|any: Option<(Seq<char>, Seq<char>)>| #[trigger]
                    first_ending(any, events) is None by {
                    assert(first_ending(any, events.drop_last()) is None);
                }
                assert forall|any: Option<(Seq<char>, Seq<char>)>| #[trigger]
                    completed_items(any, events) == Seq::<ItemView>::empty() by {
                    assert(completed_items(any, events.drop_last()) == Seq::<ItemView>::empty());
                }
            },
        }
    }
}

/// A turn that ends well sent the first text of each of its messages that is not blank, in the order
/// in which the app-server told them, and no other text.
pub proof fn a_turn_that_ends_well_sent_every_first_text<K, E>(
    gateway: GatewayView<K>,
    key: K,
    key_text: Seq<char>,
    prompt: Seq<char>,
    events: Seq<EventView<E>>,
)
    requires
        answers(turn_begin::<K, E>(gateway, key, key_text, prompt), events),
    ensures
        ({
            let begin = turn_begin::<K, E>(gateway, key, key_text, prompt);
            let actions = run_of(begin, events).actions;
            actions.last() == ActionView::<E>::Finish(Ok(())) ==> told_texts(actions)
                == first_texts(completed_items(place_of(begin, events), events))
        }),
{
    lemma_well_informed(turn_begin::<K, E>(gateway, key, key_text, prompt), events);
    a_turn_finishes_once::<K, E>(gateway, key, key_text, prompt, events);
}

/// A turn that is over ended well exactly where no event was an error and the first notification
/// that ended it told that it is complete. Where no event was an error and that notification told a
/// failure, the turn failed with it; where there was an error, the turn failed with the last one.
pub proof fn a_turn_ends_as_it_was_told<K, E>(
    gateway: GatewayView<K>,
    key: K,
    key_text: Seq<char>,
    prompt: Seq<char>,
    events: Seq<EventView<E>>,
)
    requires
        answers(turn_begin::<K, E>(gateway, key, key_text, prompt), events),
    ensures
        ({
            let begin = turn_begin::<K, E>(gateway, key, key_text, prompt);
            let run = run_of(begin, events);
            let end = first_ending(place_of(begin, events), events);
            let complete = end is Some && end->0 is TurnCompleted;
            run.phase is Finished ==> {
                &&& run.actions.last() == ActionView::<E>::Finish(Ok(())) <==> last_error(
                    events,
                ) is None && complete
                &&& last_error(events) is None && !complete ==> {
                    &&& end matches Some(NotificationView::Error { error, .. })
                    &&& run.actions.last() == ActionView::<E>::Finish(
                        Err(TurnErrorView::Turn(error)),
                    )
                }
                &&& last_error(events) matches Some(error) ==> run.actions.last()
                    == ActionView::Finish(Err(TurnErrorView::Outside(error)))
            }
        }),
{
    lemma_well_informed(turn_begin::<K, E>(gateway, key, key_text, prompt), events);
}

/// The items of a turn that were started, in order.
pub open spec fn started_items<E>(
    place: Option<(Seq<char>, Seq<char>)>,
    events: Seq<EventView<E>>,
) -> Seq<ItemView>
    decreases events.len(),
{
    if events.len() == 0 {
        Seq::empty()
    } else {
        let before = started_items(place, events.drop_last());
        match own_note(place, events.last()) {
            Some(NotificationView::ItemStarted { item, .. }) => before.push(item),
            _ => before,
        }
    }
}

/// Whether one of the items is the message `id`.
pub open spec fn has_message(items: Seq<ItemView>, id: Seq<char>) -> bool {
    exists|i: int|
        0 <= i < items.len() && (#[trigger] items[i] matches ItemView::AgentMessage { id: other, .. }
            && other == id)
}

/// The messages of a turn that were started or that came with a text, by their ids.
pub open spec fn messages_of<E>(
    place: Option<(Seq<char>, Seq<char>)>,
    events: Seq<EventView<E>>,
) -> Set<Seq<char>> {
    Set::new(
        |id: Seq<char>|
            has_message(started_items(place, events), id) || has_text(
                completed_items(place, events),
                id,
            ),
    )
}

/// A turn has on record as announced the messages that were started or came with a text.
pub open spec fn well_recorded<E>(begin: StepView<E>, events: Seq<EventView<E>>) -> bool {
    let run = run_of(begin, events);
    let place = place_of(begin, events);
    match run.phase {
        PhaseView::Receiving { progress, .. } => progress.started == messages_of(place, events),
        PhaseView::Delivering { progress, .. } => progress.started == messages_of(place, events),
        PhaseView::Finished => last_error(events) is None ==> {
            &&& messages_of(place, events).finite()
            &&& announced(run.actions) == messages_of(place, events).len()
        },
        _ => forall|any: Option<(Seq<char>, Seq<char>)>| #[trigger]
            started_items(any, events) == Seq::<ItemView>::empty(),
    }
}

proof fn lemma_has_message(items: Seq<ItemView>, item: ItemView, id: Seq<char>)
    ensures
        has_message(items.push(item), id) <==> has_message(items, id) || (
        item matches ItemView::AgentMessage { id: other, .. } && other == id),
{
    let all = items.push(item);
    if has_message(items, id) {
        let i = choose|i: int|
            0 <= i < items.len() && (#[trigger] items[i] matches ItemView::AgentMessage {
                id: other,
                ..
            } && other == id);
        assert(all[i] == items[i]);
    }
    assert(all[items.len() as int] == item);
    if has_message(all, id) {
        let i = choose|i: int|
            0 <= i < all.len() && (#[trigger] all[i] matches ItemView::AgentMessage {
                id: other,
                ..
            } && other == id);
        if i < items.len() {
            assert(all[i] == items[i]);
        }
    }
}

/// What the end of items adds to the messages announced is what has a text among them.
proof fn lemma_completed_started(
    progress: ProgressView,
    items: Seq<ItemView>,
    more: Seq<ItemView>,
    id: Seq<char>,
)
    requires
        progress.wf(),
        records(progress, items),
    ensures
        progress.items_completed(more).progress.started.contains(id) <==> progress.started.contains(
            id,
        ) || has_text(items + more, id),
    decreases more.len(),
{
    if more.len() == 0 {
        assert(items + more =~= items);
        assert(progress.sent.contains(id) <==> has_text(items, id));
    } else {
        let before = progress.items_completed(more.drop_last()).progress;
        lemma_completed_started(progress, items, more.drop_last(), id);
        lemma_all_completed_texts(progress, items, more.drop_last());
        lemma_items_completed(progress, more.drop_last());
        lemma_has_text(items + more.drop_last(), more.last(), id);
        assert(items + more =~= (items + more.drop_last()).push(more.last()));
        assert(before.sent.contains(id) <==> has_text(items + more.drop_last(), id));
    }
}

proof fn lemma_notified_recorded<E>(
    begin: StepView<E>,
    events: Seq<EventView<E>>,
    note: NotificationView,
)
    requires
        events.len() > 0,
        balanced(run_of(begin, events.drop_last())),
        well_informed(begin, events.drop_last()),
        well_recorded(begin, events.drop_last()),
        run_of(begin, events.drop_last()).phase is Receiving,
        events.last() == EventView::<E>::Incoming(Ok(IncomingView::Notification(note))),
    ensures
        well_recorded(begin, events),
{
    let before = run_of(begin, events.drop_last());
    let run = run_of(begin, events);
    let place = place_of(begin, events);
    let completed = completed_items(place, events.drop_last());
    let started = started_items(place, events.drop_last());
    assert(place == place_of(begin, events.drop_last()));
    if let PhaseView::Receiving { progress, .. } = before.phase {
        let own = own_note(place, events.last());
        let after = match own {
            Some(NotificationView::ItemStarted { item, .. }) => progress.item_started(item),
            Some(NotificationView::ItemCompleted { item, .. }) => progress.item_completed(item),
            Some(NotificationView::TurnCompleted { items, .. }) => progress.items_completed(items),
            Some(NotificationView::Error { .. }) => progress.close_all(),
            _ => PlanView { progress, list: Seq::empty() },
        };
        assert forall|id: Seq<char>|
            after.progress.started.contains(id) <==> messages_of(place, events).contains(id) by {
            assert(progress.started.contains(id) <==> messages_of(
                place,
                events.drop_last(),
            ).contains(id));
            assert(progress.sent.contains(id) <==> has_text(completed, id));
            match own {
                Some(NotificationView::ItemStarted { item, .. }) => {
                    lemma_has_message(started, item, id);
                },
                Some(NotificationView::ItemCompleted { item, .. }) => {
                    lemma_has_text(completed, item, id);
                },
                Some(NotificationView::TurnCompleted { items, .. }) => {
                    lemma_completed_started(progress, completed, items, id);
                    if has_text(completed, id) {
                        let i = choose|i: int|
                            0 <= i < completed.len() && (
                            #[trigger] completed[i] matches ItemView::AgentMessage { id: other, text }
                                && other == id && !blank(text));
                        assert((completed + items)[i] == completed[i]);
                    }
                },
                _ => {},
            }
        }
        assert(after.progress.started =~= messages_of(place, events));
        lemma_push(before.actions, run.actions.last());
        match own {
            Some(NotificationView::TurnCompleted { items, .. }) => {
                lemma_items_completed(progress, items);
            },
            _ => {},
        }
    }
}

proof fn lemma_well_recorded<E>(begin: StepView<E>, events: Seq<EventView<E>>)
    requires
        begin.phase is StartingThread || begin.phase is StartingTurn,
        begin.action is StartThread || begin.action is StartTurn,
        answers(begin, events),
    ensures
        well_recorded(begin, events),
    decreases events.len(),
{
    if events.len() > 0 {
        let less = events.drop_last();
        let before = run_of(begin, less);
        let place = place_of(begin, events);
        lemma_well_recorded(begin, less);
        lemma_well_informed(begin, less);
        lemma_well_informed(begin, events);
        lemma_run_balanced(begin, less);
        lemma_push(before.actions, run_of(begin, events).actions.last());
        match before.phase {
            PhaseView::Receiving { .. } => {
                match events.last() {
                    EventView::Incoming(Ok(IncomingView::Notification(note))) => {
                        lemma_notified_recorded(begin, events, note);
                    },
                    _ => {
                        assert(messages_of(place, events) =~= messages_of(place, less));
                    },
                }
            },
            PhaseView::Delivering { .. } => {
                assert(messages_of(place, events) =~= messages_of(place, less));
            },
            PhaseView::Announcing { .. } => {
                assert(started_items(place, less) == Seq::<ItemView>::empty());
                assert(completed_items(place, less) == Seq::<ItemView>::empty());
                assert(messages_of(place, events) =~= Set::empty());
            },
            PhaseView::Finished => {},
            _ => {
                assert forall|any: Option<(Seq<char>, Seq<char>)>| #[trigger]
                    started_items(any, events) == Seq::<ItemView>::empty() by {
                    assert(started_items(any, less) == Seq::<ItemView>::empty());
                }
            },
        }
    }
}

/// A turn that ended well, or that is over without an error from outside, announced as many messages
/// as there are of it that were started or that came with a text: none of them twice.
pub proof fn each_message_of_a_turn_is_announced_once<K, E>(
    gateway: GatewayView<K>,
    key: K,
    key_text: Seq<char>,
    prompt: Seq<char>,
    events: Seq<EventView<E>>,
)
    requires
        answers(turn_begin::<K, E>(gateway, key, key_text, prompt), events),
    ensures
        ({
            let begin = turn_begin::<K, E>(gateway, key, key_text, prompt);
            let run = run_of(begin, events);
            let messages = messages_of(place_of(begin, events), events);
            let well = run.actions.last() == ActionView::<E>::Finish(Ok(()));
            well || run.phase is Finished && last_error(events) is None ==> {
                &&& messages.finite()
                &&& announced(run.actions) == messages.len()
            }
        }),
{
    lemma_well_recorded(turn_begin::<K, E>(gateway, key, key_text, prompt), events);
    a_turn_ends_as_it_was_told::<K, E>(gateway, key, key_text, prompt, events);
    a_turn_finishes_once::<K, E>(gateway, key, key_text, prompt, events);
}

/// The messages of a turn that were started and of whose end nothing was told yet, by their ids.
pub open spec fn left_open<E>(
    place: Option<(Seq<char>, Seq<char>)>,
    events: Seq<EventView<E>>,
) -> Set<Seq<char>>
    decreases events.len(),
{
    if events.len() == 0 {
        Set::empty()
    } else {
        let before = left_open(place, events.drop_last());
        match own_note(place, events.last()) {
            Some(
                NotificationView::ItemStarted { item: ItemView::AgentMessage { id, .. }, .. },
            ) => if messages_of(place, events.drop_last()).contains(id) {
                before
            } else {
                before.insert(id)
            },
            Some(
                NotificationView::ItemCompleted { item: ItemView::AgentMessage { id, .. }, .. },
            ) => before.remove(id),
            Some(NotificationView::TurnCompleted { items, .. }) => before.difference(
                Set::new(|id: Seq<char>| has_message(items, id)),
            ),
            _ => before,
        }
    }
}

/// A turn has on record as open the messages of whose end nothing was told.
pub open spec fn well_closed<E>(begin: StepView<E>, events: Seq<EventView<E>>) -> bool {
    let run = run_of(begin, events);
    let left = left_open(place_of(begin, events), events);
    match run.phase {
        PhaseView::Receiving { progress, .. } => progress.open == left,
        PhaseView::Delivering { progress, ending, .. } => ending !is Fail ==> progress.open == left,
        PhaseView::Finished => run.actions.last() == ActionView::<E>::Finish(Ok(())) ==> {
            &&& left.finite()
            &&& announced(run.actions) == closed(run.actions) + left.len()
        },
        _ => forall|any: Option<(Seq<char>, Seq<char>)>| #[trigger]
            left_open(any, events) == Set::<Seq<char>>::empty(),
    }
}

proof fn lemma_items_close(progress: ProgressView, items: Seq<ItemView>, id: Seq<char>)
    requires
        progress.wf(),
    ensures
        progress.items_completed(items).progress.open.contains(id) <==> progress.open.contains(id)
            && !has_message(items, id),
    decreases items.len(),
{
    if items.len() > 0 {
        lemma_items_close(progress, items.drop_last(), id);
        lemma_items_completed(progress, items.drop_last());
        lemma_has_message(items.drop_last(), items.last(), id);
        assert(items.drop_last().push(items.last()) =~= items);
    }
}

proof fn lemma_notified_closed<E>(
    begin: StepView<E>,
    events: Seq<EventView<E>>,
    note: NotificationView,
)
    requires
        events.len() > 0,
        balanced(run_of(begin, events.drop_last())),
        well_informed(begin, events.drop_last()),
        well_recorded(begin, events.drop_last()),
        well_closed(begin, events.drop_last()),
        run_of(begin, events.drop_last()).phase is Receiving,
        events.last() == EventView::<E>::Incoming(Ok(IncomingView::Notification(note))),
    ensures
        well_closed(begin, events),
{
    let before = run_of(begin, events.drop_last());
    let run = run_of(begin, events);
    let place = place_of(begin, events);
    assert(place == place_of(begin, events.drop_last()));
    if let PhaseView::Receiving { progress, .. } = before.phase {
        lemma_open_messages(progress);
        lemma_push(before.actions, run.actions.last());
        match own_note(place, events.last()) {
            Some(NotificationView::TurnCompleted { items, .. }) => {
                let after = progress.items_completed(items).progress;
                assert forall|id: Seq<char>|
                    after.open.contains(id) <==> left_open(place, events).contains(id) by {
                    lemma_items_close(progress, items, id);
                }
                assert(after.open =~= left_open(place, events));
                lemma_items_completed(progress, items);
                lemma_open_messages(after);
            },
            Some(NotificationView::ItemStarted { item, .. }) => {
                assert(progress.item_started(item).progress.open =~= left_open(place, events));
            },
            Some(NotificationView::ItemCompleted { item, .. }) => {
                assert(progress.item_completed(item).progress.open =~= left_open(place, events));
            },
            _ => {},
        }
    }
}

proof fn lemma_well_closed<E>(begin: StepView<E>, events: Seq<EventView<E>>)
    requires
        begin.phase is StartingThread || begin.phase is StartingTurn,
        begin.action is StartThread || begin.action is StartTurn,
        answers(begin, events),
    ensures
        well_closed(begin, events),
    decreases events.len(),
{
    if events.len() > 0 {
        let less = events.drop_last();
        let before = run_of(begin, less);
        let place = place_of(begin, events);
        lemma_well_closed(begin, less);
        lemma_well_recorded(begin, less);
        lemma_well_informed(begin, less);
        lemma_well_informed(begin, events);
        lemma_run_balanced(begin, less);
        lemma_push(before.actions, run_of(begin, events).actions.last());
        match before.phase {
            PhaseView::Receiving { .. } => {
                match events.last() {
                    EventView::Incoming(Ok(IncomingView::Notification(note))) => {
                        lemma_notified_closed(begin, events, note);
                    },
                    _ => {},
                }
            },
            PhaseView::Delivering { progress, .. } => {
                lemma_open_messages(progress);
            },
            PhaseView::Announcing { .. } => {
                assert(left_open(place, less) == Set::<Seq<char>>::empty());
            },
            PhaseView::Finished => {},
            _ => {
                assert forall|any: Option<(Seq<char>, Seq<char>)>| #[trigger]
                    left_open(any, events) == Set::<Seq<char>>::empty() by {
                    assert(left_open(any, less) == Set::<Seq<char>>::empty());
                }
            },
        }
    }
}

/// A turn that ends well closed as many of the messages that it announced as there are of whose end
/// it was told: those that it leaves open are the ones that were started and never ended.
pub proof fn each_message_that_ended_is_closed_once<K, E>(
    gateway: GatewayView<K>,
    key: K,
    key_text: Seq<char>,
    prompt: Seq<char>,
    events: Seq<EventView<E>>,
)
    requires
        answers(turn_begin::<K, E>(gateway, key, key_text, prompt), events),
    ensures
        ({
            let begin = turn_begin::<K, E>(gateway, key, key_text, prompt);
            let actions = run_of(begin, events).actions;
            let left = left_open(place_of(begin, events), events);
            actions.last() == ActionView::<E>::Finish(Ok(())) ==> {
                &&& left.finite()
                &&& announced(actions) == closed(actions) + left.len()
            }
        }),
{
    lemma_well_closed(turn_begin::<K, E>(gateway, key, key_text, prompt), events);
    a_turn_finishes_once::<K, E>(gateway, key, key_text, prompt, events);
}

/// What is told to the output.
pub open spec fn is_output<E>(action: ActionView<E>) -> bool {
    action is TurnStarted || action is MessageStarted || action is Send
        || action is MessageFinished
}

/// What the output was told, in order.
pub open spec fn outputs<E>(actions: Seq<ActionView<E>>) -> Seq<ActionView<E>>
    decreases actions.len(),
{
    if actions.len() == 0 {
        Seq::empty()
    } else if is_output(actions.last()) {
        outputs(actions.drop_last()).push(actions.last())
    } else {
        outputs(actions.drop_last())
    }
}

/// The start of the turn comes first and does not come again.
pub open spec fn start_is_first<E>(told: Seq<ActionView<E>>) -> bool {
    &&& told.len() > 0 ==> told[0] is TurnStarted
    &&& forall|i: int| 1 <= i < told.len() ==> !(#[trigger] told[i] is TurnStarted)
}

proof fn lemma_start_is_first<E>(begin: StepView<E>, events: Seq<EventView<E>>)
    requires
        begin.phase is StartingThread || begin.phase is StartingTurn,
        begin.action is StartThread || begin.action is StartTurn,
        answers(begin, events),
    ensures
        ({
            let run = run_of(begin, events);
            let told = outputs(run.actions);
            &&& start_is_first(told)
            &&& run.phase is StartingThread || run.phase is StartingTurn ==> told.len() == 0
            &&& run.phase is Announcing || run.phase is Receiving || run.phase is Delivering
                ==> told.len() > 0
        }),
    decreases events.len(),
{
    if events.len() == 0 {
        reveal_with_fuel(outputs, 2);
        assert(seq![begin.action].drop_last() =~= Seq::empty());
    } else {
        lemma_start_is_first(begin, events.drop_last());
        let before = run_of(begin, events.drop_last());
        assert(run_of(begin, events).actions.drop_last() =~= before.actions);
    }
}

/// The output is told of the start of the turn before anything else, and once.
pub proof fn the_start_of_a_turn_is_told_first<K, E>(
    gateway: GatewayView<K>,
    key: K,
    key_text: Seq<char>,
    prompt: Seq<char>,
    events: Seq<EventView<E>>,
)
    requires
        answers(turn_begin::<K, E>(gateway, key, key_text, prompt), events),
    ensures
        start_is_first(
            outputs(run_of(turn_begin::<K, E>(gateway, key, key_text, prompt), events).actions),
        ),
{
    lemma_start_is_first(turn_begin::<K, E>(gateway, key, key_text, prompt), events);
}

/// Whether a turn that waits passes an event over: a message that is no notification, or one that is
/// not about its thread and turn.
pub open spec fn passed_over<E>(phase: PhaseView<E>, event: EventView<E>) -> bool {
    match (phase, event) {
        (PhaseView::Receiving { thread_id, turn_id, .. }, EventView::Incoming(Ok(message))) => {
            match message {
                IncomingView::Notification(note) => subject(note) != Some((thread_id, turn_id)),
                IncomingView::Other => true,
            }
        },
        _ => false,
    }
}

/// The events of a turn without those that it passed over.
pub open spec fn heeded<E>(begin: StepView<E>, events: Seq<EventView<E>>) -> Seq<EventView<E>>
    decreases events.len(),
{
    if events.len() == 0 {
        Seq::empty()
    } else {
        let before = heeded(begin, events.drop_last());
        if passed_over(run_of(begin, events.drop_last()).phase, events.last()) {
            before
        } else {
            before.push(events.last())
        }
    }
}

/// The gateway after the events of a turn of `key`, as far as the turn changes it.
pub open spec fn gateway_after<K, E>(
    gateway: GatewayView<K>,
    key: K,
    begin: StepView<E>,
    events: Seq<EventView<E>>,
) -> GatewayView<K>
    decreases events.len(),
{
    if events.len() == 0 {
        begin.effect.on(gateway, key)
    } else {
        let before = gateway_after(gateway, key, begin, events.drop_last());
        let phase = run_of(begin, events.drop_last()).phase;
        phase.step(events.last()).effect.on(before, key)
    }
}

/// What a turn passes over makes no difference: without it, the turn stands where it stands, told the
/// output the same, ended with the same result and left the same sessions.
pub proof fn what_is_passed_over_makes_no_difference<K, E>(
    gateway: GatewayView<K>,
    key: K,
    begin: StepView<E>,
    events: Seq<EventView<E>>,
)
    requires
        answers(begin, events),
    ensures
        ({
            let run = run_of(begin, events);
            let short = run_of(begin, heeded(begin, events));
            &&& answers(begin, heeded(begin, events))
            &&& short.phase == run.phase
            &&& outputs(short.actions) == outputs(run.actions)
            &&& run.phase is Finished ==> short.actions.last() == run.actions.last()
            &&& gateway_after(gateway, key, begin, heeded(begin, events)) == gateway_after(
                gateway,
                key,
                begin,
                events,
            )
        }),
    decreases events.len(),
{
    if events.len() > 0 {
        let before = events.drop_last();
        what_is_passed_over_makes_no_difference(gateway, key, begin, before);
        let run = run_of(begin, before);
        let short = run_of(begin, heeded(begin, before));
        assert(run_of(begin, events).actions.drop_last() =~= run.actions);
        if passed_over(run.phase, events.last()) {
            assert(run.phase.step(events.last()).phase == run.phase);
        } else {
            let longer = heeded(begin, events);
            assert(longer.drop_last() =~= heeded(begin, before));
            assert(run_of(begin, longer).actions.drop_last() =~= short.actions);
        }
    }
}

} // verus!
