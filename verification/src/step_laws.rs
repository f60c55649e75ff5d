//! What each step of a turn asks for and what it leaves in the session of its channel.

use vstd::prelude::*;

use crate::command_laws::same_elsewhere;
use crate::delivery::{DeliveryView, ProgressView};
use crate::gateway::GatewayView;
use crate::protocol::{IncomingView, ItemView, NotificationView, RequestIdView, RequestView};
use crate::text::blank;
use crate::turn::{
    deliver, turn_begin, ActionView, Effect, EndingView, EventView, PhaseView, StepView, TurnErrorView,
    UnderWay,
};
use crate::turn_laws::{
    accepts, answers, error_of, everything_planned_is_told, gateway_after, run_of, tellings,
    thread_of, turn_of, RunView,
};

verus! {

/// A turn of a channel with a thread begins there: it asks to start with its prompt, with the
/// settings of the session, and under an id that names the channel and the thread. A turn of a
/// channel without one asks for a thread first, with the same model. To begin changes no session.
pub proof fn a_turn_begins_on_the_thread_of_its_channel<K, E>(
    gateway: GatewayView<K>,
    key: K,
    key_text: Seq<char>,
    prompt: Seq<char>,
)
    ensures
        ({
            let session = gateway.session(key);
            let begin = turn_begin::<K, E>(gateway, key, key_text, prompt);
            &&& begin.effect.on(gateway, key) == gateway
            &&& session.thread_id matches Some(thread) ==> {
                &&& begin.phase == PhaseView::<E>::StartingTurn { thread_id: thread }
                &&& begin.action matches ActionView::StartTurn(RequestView::TurnStart { id, params })
                &&& id == RequestIdView::Text("turn-start-"@ + key_text + "-"@ + thread)
                &&& params.thread_id == thread
                &&& params.input == seq![prompt]
                &&& params.model == Some(session.model)
                &&& params.effort == session.effort
                &&& params.cwd == gateway.default_cwd
            }
            &&& session.thread_id is None ==> {
                &&& begin.phase is StartingThread
                &&& begin.action matches ActionView::StartThread(params)
                &&& params.model == Some(session.model)
                &&& params.cwd == gateway.default_cwd
                &&& params.service_name == gateway.service_name
            }
        }),
{
}

/// A turn for which a thread was started goes on as it would have begun if its channel had had the
/// thread, and the channel has it from then on.
pub proof fn a_started_thread_is_as_good_as_an_old_one<K, E>(
    gateway: GatewayView<K>,
    key: K,
    key_text: Seq<char>,
    prompt: Seq<char>,
    thread_id: Seq<char>,
)
    requires
        gateway.session(key).thread_id is None,
    ensures
        ({
            let begin = turn_begin::<K, E>(gateway, key, key_text, prompt);
            let started = begin.phase.step(EventView::Thread(Ok(thread_id)));
            let old_one = turn_begin::<K, E>(
                gateway.with_thread(key, thread_id),
                key,
                key_text,
                prompt,
            );
            let after = started.effect.on(gateway, key);
            &&& started.phase == old_one.phase
            &&& started.action == old_one.action
            &&& after.session(key).thread_id == Some(thread_id)
            &&& same_elsewhere(gateway, after, key)
        }),
{
}

proof fn lemma_phases<E>(begin: StepView<E>, events: Seq<EventView<E>>)
    requires
        begin.phase is StartingThread || begin.phase is StartingTurn,
        answers(begin, events),
    ensures
        ({
            let phase = run_of(begin, events).phase;
            &&& phase is StartingThread ==> events.len() == 0 && thread_of(begin, events) is None
            &&& phase is StartingThread || phase is StartingTurn ==> turn_of(events) is None
            &&& phase matches PhaseView::StartingTurn { thread_id } ==> thread_of(begin, events)
                == Some(thread_id)
            &&& phase matches PhaseView::Announcing { thread_id, turn_id } ==> thread_of(
                begin,
                events,
            ) == Some(thread_id) && turn_of(events) == Some(turn_id)
            &&& phase matches PhaseView::Receiving { thread_id, turn_id, .. } ==> thread_of(
                begin,
                events,
            ) == Some(thread_id) && turn_of(events) == Some(turn_id)
            &&& phase matches PhaseView::Delivering { thread_id, turn_id, .. } ==> thread_of(
                begin,
                events,
            ) == Some(thread_id) && turn_of(events) == Some(turn_id)
        }),
    decreases events.len(),
{
    if events.len() > 0 {
        lemma_phases(begin, events.drop_last());
    }
}

proof fn lemma_thread_is_kept<K, E>(
    gateway: GatewayView<K>,
    key: K,
    key_text: Seq<char>,
    prompt: Seq<char>,
    events: Seq<EventView<E>>,
)
    requires
        answers(turn_begin::<K, E>(gateway, key, key_text, prompt), events),
    ensures
        ({
            let begin = turn_begin::<K, E>(gateway, key, key_text, prompt);
            let thread = gateway_after(gateway, key, begin, events).session(key).thread_id;
            &&& thread == thread_of(begin, events)
            &&& forall|i: int|
                0 <= i < events.len() ==> (#[trigger] events[i] matches EventView::Thread(Ok(t))
                    ==> thread == Some(t))
            &&& gateway.session(key).thread_id is Some ==> thread == gateway.session(key).thread_id
        }),
    decreases events.len(),
{
    let begin = turn_begin::<K, E>(gateway, key, key_text, prompt);
    if events.len() > 0 {
        let less = events.drop_last();
        lemma_thread_is_kept(gateway, key, key_text, prompt, less);
        lemma_phases(begin, less);
        lemma_phases(begin, events);
        assert forall|i: int| 0 <= i < events.len() implies (
        #[trigger] events[i] matches EventView::Thread(Ok(t)) ==> gateway_after(
            gateway,
            key,
            begin,
            events,
        ).session(key).thread_id == Some(t)) by {
            if i < less.len() {
                assert(less[i] == events[i]);
            } else {
                assert(events[i] == events.last());
            }
        }
    }
}

/// Once the thread that a turn asked for was started, its channel has that thread, at every later
/// point of the turn: the next turn begins on it. A thread that the channel had before stays.
pub proof fn a_started_thread_stays_with_its_channel<K, E>(
    gateway: GatewayView<K>,
    key: K,
    key_text: Seq<char>,
    prompt: Seq<char>,
    events: Seq<EventView<E>>,
    thread_id: Seq<char>,
    next_prompt: Seq<char>,
)
    requires
        answers(turn_begin::<K, E>(gateway, key, key_text, prompt), events),
        gateway.session(key).thread_id == Some(thread_id) || events.contains(
            EventView::<E>::Thread(Ok(thread_id)),
        ),
    ensures
        ({
            let begin = turn_begin::<K, E>(gateway, key, key_text, prompt);
            let after = gateway_after(gateway, key, begin, events);
            let next = turn_begin::<K, E>(after, key, key_text, next_prompt);
            &&& after.session(key).thread_id == Some(thread_id)
            &&& next.phase == PhaseView::<E>::StartingTurn { thread_id }
            &&& next.action matches ActionView::StartTurn(RequestView::TurnStart { params, .. })
            &&& params.thread_id == thread_id
        }),
{
    lemma_thread_is_kept::<K, E>(gateway, key, key_text, prompt, events);
    if events.contains(EventView::<E>::Thread(Ok(thread_id))) {
        let i = choose|i: int|
            0 <= i < events.len() && events[i] == EventView::<E>::Thread(Ok(thread_id));
        assert(events[i] == EventView::<E>::Thread(Ok(thread_id)));
    }
}

/// A turn is the active one of its channel from its start to its end, and can be steered and
/// interrupted as long: its id stands in the session. At its end no turn is active, unless the
/// connection to the app-server broke. A turn that did not start leaves it as it was.
pub proof fn a_turn_is_active_while_it_runs<K, E>(
    gateway: GatewayView<K>,
    key: K,
    key_text: Seq<char>,
    prompt: Seq<char>,
    events: Seq<EventView<E>>,
)
    requires
        gateway.sessions.contains_key(key),
        answers(turn_begin::<K, E>(gateway, key, key_text, prompt), events),
    ensures
        ({
            let begin = turn_begin::<K, E>(gateway, key, key_text, prompt);
            let run = run_of(begin, events);
            let after = gateway_after(gateway, key, begin, events);
            let broken = events.len() > 0 && events.last() matches EventView::Incoming(Err(_));
            &&& after.sessions.contains_key(key)
            &&& turn_of(events) is None ==> after.session(key).active_turn_id == gateway.session(
                key,
            ).active_turn_id
            &&& turn_of(events) matches Some(turn_id) ==> {
                if run.phase is Finished && !broken {
                    after.session(key).active_turn_id is None
                } else {
                    &&& after.session(key).active_turn_id == Some(turn_id)
                    &&& thread_of(begin, events) matches Some(thread_id)
                    &&& after.steerable(key) == Some((thread_id, turn_id))
                }
            }
            &&& after.session(key).model == gateway.session(key).model
            &&& after.session(key).effort == gateway.session(key).effort
            &&& after.session(key).queued == gateway.session(key).queued
            &&& same_elsewhere(gateway, after, key)
        }),
    decreases events.len(),
{
    let begin = turn_begin::<K, E>(gateway, key, key_text, prompt);
    if events.len() > 0 {
        let less = events.drop_last();
        a_turn_is_active_while_it_runs(gateway, key, key_text, prompt, less);
        lemma_phases(begin, less);
        lemma_thread_is_kept(gateway, key, key_text, prompt, less);
        lemma_thread_is_kept(gateway, key, key_text, prompt, events);
    }
}

/// What a turn asks for last is what it waits for: the answer to it is the one kind of event that it
/// takes, and after its end it takes none.
pub proof fn a_turn_waits_for_the_answer_to_what_it_asked<K, E>(
    gateway: GatewayView<K>,
    key: K,
    key_text: Seq<char>,
    prompt: Seq<char>,
    events: Seq<EventView<E>>,
    event: EventView<E>,
)
    requires
        answers(turn_begin::<K, E>(gateway, key, key_text, prompt), events),
    ensures
        ({
            let run = run_of(turn_begin::<K, E>(gateway, key, key_text, prompt), events);
            run.phase.awaits(event) <==> match run.actions.last() {
                ActionView::StartThread(_) => event is Thread,
                ActionView::StartTurn(_) => event is Turn,
                ActionView::Receive => event is Incoming,
                ActionView::Finish(_) => false,
                _ => event is Output,
            }
        }),
    decreases events.len(),
{
    if events.len() > 0 {
        let begin = turn_begin::<K, E>(gateway, key, key_text, prompt);
        a_turn_waits_for_the_answer_to_what_it_asked(
            gateway,
            key,
            key_text,
            prompt,
            events.drop_last(),
            events.last(),
        );
        assert(run_of(begin, events.drop_last()).phase.awaits(events.last()));
    }
}

/// A turn that was started is told of before anything is received, and begins with no message on
/// record.
pub proof fn a_started_turn_is_told_of_and_then_received<E>(
    thread_id: Seq<char>,
    turn_id: Seq<char>,
)
    ensures
        ({
            let started = (PhaseView::<E>::StartingTurn { thread_id }).step(
                EventView::Turn(Ok(turn_id)),
            );
            let told = started.phase.step(EventView::Output(Ok(())));
            &&& started.action == ActionView::<E>::TurnStarted
            &&& started.effect == Effect::ActiveTurn(turn_id)
            &&& told.action == ActionView::<E>::Receive
            &&& told.effect == Effect::Nothing
            &&& told.phase matches PhaseView::Receiving { thread_id: t, turn_id: u, progress }
            &&& t == thread_id
            &&& u == turn_id
            &&& forall|id: Seq<char>| !#[trigger] progress.started.contains(id)
            &&& forall|id: Seq<char>| !#[trigger] progress.open.contains(id)
            &&& forall|id: Seq<char>| !#[trigger] progress.sent.contains(id)
        }),
{
}

/// An error from outside ends a turn at once and with that error. The one exception is the text of a
/// message that is to be closed: it is closed first.
pub proof fn an_error_ends_the_turn_at_once<E>(phase: PhaseView<E>, event: EventView<E>, error: E)
    requires
        phase.awaits(event),
        error_of(event) == Some(error),
    ensures
        ({
            let step = phase.step(event);
            let closing = phase matches PhaseView::Delivering {
                under_way: UnderWay::Text { finish },
                ..
            } && finish;
            &&& !closing ==> step.phase is Finished && step.action == ActionView::Finish(
                Err(TurnErrorView::Outside(error)),
            )
            &&& closing ==> step.action == ActionView::<E>::MessageFinished && step.effect
                == Effect::Nothing
        }),
{
}

/// What a turn that waits does when a notification comes, if its output takes all it is told: it
/// tells `told`, in this order, then asks for `then`, and stands at `phase`; no session changes
/// before `then` is a finish.
pub open spec fn brings<E>(
    thread_id: Seq<char>,
    turn_id: Seq<char>,
    progress: ProgressView,
    note: NotificationView,
    told: Seq<ActionView<E>>,
    then: ActionView<E>,
    phase: PhaseView<E>,
) -> bool {
    let waiting = PhaseView::<E>::Receiving { thread_id, turn_id, progress };
    let step = waiting.step(EventView::Incoming(Ok(IncomingView::Notification(note))));
    run_of(step, accepts(told.len())) == (RunView { phase, actions: told.push(then) })
}

proof fn lemma_brings<E>(
    thread_id: Seq<char>,
    turn_id: Seq<char>,
    progress: ProgressView,
    note: NotificationView,
    list: Seq<DeliveryView>,
    after: ProgressView,
    ending: EndingView,
    told: Seq<ActionView<E>>,
)
    requires
        (PhaseView::<E>::Receiving { thread_id, turn_id, progress }).step(
            EventView::Incoming(Ok(IncomingView::Notification(note))),
        ) == deliver::<E>(thread_id, turn_id, after, list, ending),
        tellings::<E>(list) == told,
    ensures
        ({
            let end = deliver::<E>(thread_id, turn_id, after, Seq::empty(), ending);
            brings(thread_id, turn_id, progress, note, told, end.action, end.phase)
        }),
{
    everything_planned_is_told::<E>(thread_id, turn_id, after, list, ending);
}

proof fn lemma_short_tellings<E>(a: DeliveryView, b: DeliveryView)
    ensures
        tellings::<E>(Seq::empty()) == Seq::<ActionView<E>>::empty(),
        tellings::<E>(seq![a]) == told_for::<E>(a),
        tellings::<E>(seq![a, b]) == told_for::<E>(a) + told_for::<E>(b),
{
    reveal_with_fuel(tellings, 3);
    assert(seq![a].drop_first() =~= Seq::empty());
    assert(seq![a, b].drop_first() =~= seq![b]);
    assert(seq![b].drop_first() =~= Seq::empty());
    assert(tellings::<E>(seq![a]) =~= told_for::<E>(a));
    assert(tellings::<E>(seq![a, b]) =~= told_for::<E>(a) + told_for::<E>(b));
}

spec fn told_for<E>(delivery: DeliveryView) -> Seq<ActionView<E>> {
    match delivery {
        DeliveryView::Start => seq![ActionView::<E>::MessageStarted],
        DeliveryView::Text { text, finish } => if finish {
            seq![ActionView::<E>::Send(text), ActionView::<E>::MessageFinished]
        } else {
            seq![ActionView::<E>::Send(text)]
        },
        DeliveryView::Finish => seq![ActionView::<E>::MessageFinished],
    }
}

/// The start of a message is told the first time and is noted; told again, it brings nothing. The
/// start of any other item brings nothing.
pub proof fn the_start_of_a_message_is_told<E>(
    thread_id: Seq<char>,
    turn_id: Seq<char>,
    progress: ProgressView,
    id: Seq<char>,
    text: Seq<char>,
)
    ensures
        ({
            let item = ItemView::AgentMessage { id, text };
            let note = NotificationView::ItemStarted { thread_id, turn_id, item };
            let noted = ProgressView {
                started: progress.started.insert(id),
                open: progress.open.insert(id),
                sent: progress.sent,
            };
            if progress.started.contains(id) {
                brings(
                    thread_id,
                    turn_id,
                    progress,
                    note,
                    Seq::empty(),
                    ActionView::<E>::Receive,
                    PhaseView::Receiving { thread_id, turn_id, progress },
                )
            } else {
                brings(
                    thread_id,
                    turn_id,
                    progress,
                    note,
                    seq![ActionView::<E>::MessageStarted],
                    ActionView::<E>::Receive,
                    PhaseView::Receiving { thread_id, turn_id, progress: noted },
                )
            }
        }),
        brings(
            thread_id,
            turn_id,
            progress,
            NotificationView::ItemStarted { thread_id, turn_id, item: ItemView::Other },
            Seq::empty(),
            ActionView::<E>::Receive,
            PhaseView::Receiving { thread_id, turn_id, progress },
        ),
{
    let item = ItemView::AgentMessage { id, text };
    let note = NotificationView::ItemStarted { thread_id, turn_id, item };
    let plan = progress.item_started(item);
    lemma_short_tellings::<E>(DeliveryView::Start, DeliveryView::Start);
    lemma_brings::<E>(
        thread_id,
        turn_id,
        progress,
        note,
        plan.list,
        plan.progress,
        EndingView::Resume,
        tellings::<E>(plan.list),
    );
    lemma_brings::<E>(
        thread_id,
        turn_id,
        progress,
        NotificationView::ItemStarted { thread_id, turn_id, item: ItemView::Other },
        Seq::empty(),
        progress,
        EndingView::Resume,
        Seq::empty(),
    );
}

/// What the output is told at the end of a message: its start if that was not told, its text if it
/// has one that was not sent, and its end if it is then open.
pub open spec fn end_of_message<E>(
    progress: ProgressView,
    id: Seq<char>,
    text: Seq<char>,
) -> Seq<ActionView<E>> {
    let sends = !blank(text) && !progress.sent.contains(id);
    let starts = sends && !progress.started.contains(id);
    let closes = starts || progress.open.contains(id);
    (if starts {
        seq![ActionView::<E>::MessageStarted]
    } else {
        Seq::empty()
    }) + (if sends {
        seq![ActionView::<E>::Send(text)]
    } else {
        Seq::empty()
    }) + (if closes {
        seq![ActionView::<E>::MessageFinished]
    } else {
        Seq::empty()
    })
}

/// The record of messages after the end of one.
pub open spec fn noted_end(progress: ProgressView, id: Seq<char>, text: Seq<char>) -> ProgressView {
    let sends = !blank(text) && !progress.sent.contains(id);
    ProgressView {
        started: if sends {
            progress.started.insert(id)
        } else {
            progress.started
        },
        open: progress.open.remove(id),
        sent: if sends {
            progress.sent.insert(id)
        } else {
            progress.sent
        },
    }
}

proof fn lemma_end_of_message<E>(progress: ProgressView, id: Seq<char>, text: Seq<char>)
    requires
        progress.wf(),
    ensures
        ({
            let plan = progress.item_completed(ItemView::AgentMessage { id, text });
            &&& tellings::<E>(plan.list) == end_of_message::<E>(progress, id, text)
            &&& plan.progress == noted_end(progress, id, text)
        }),
{
    let plan = progress.item_completed(ItemView::AgentMessage { id, text });
    let body = DeliveryView::Text { text, finish: !progress.finished().contains(id) };
    lemma_short_tellings::<E>(DeliveryView::Start, body);
    lemma_short_tellings::<E>(body, body);
    lemma_short_tellings::<E>(DeliveryView::Finish, body);
    assert(tellings::<E>(plan.list) =~= end_of_message::<E>(progress, id, text));
    assert(plan.progress =~= noted_end(progress, id, text));
}

/// The end of a message is told as far as it was not told before: the start, the text and the end,
/// in this order, and each is noted. A blank text is not told, and a message that was not announced
/// is not closed. The end of any other item brings nothing.
pub proof fn the_end_of_a_message_is_told<E>(
    thread_id: Seq<char>,
    turn_id: Seq<char>,
    progress: ProgressView,
    id: Seq<char>,
    text: Seq<char>,
)
    requires
        progress.wf(),
    ensures
        ({
            let note = NotificationView::ItemCompleted {
                thread_id,
                turn_id,
                item: ItemView::AgentMessage { id, text },
            };
            let (started, open, sent) = (progress.started, progress.open, progress.sent);
            let news = !blank(text) && !sent.contains(id);
            let all_told = ProgressView {
                started: started.insert(id),
                open: open.remove(id),
                sent: sent.insert(id),
            };
            let (start, say, end) = (
                ActionView::<E>::MessageStarted,
                ActionView::<E>::Send(text),
                ActionView::<E>::MessageFinished,
            );
            let comes = |told: Seq<ActionView<E>>, after: ProgressView|
                brings(
                    thread_id,
                    turn_id,
                    progress,
                    note,
                    told,
                    ActionView::<E>::Receive,
                    PhaseView::Receiving { thread_id, turn_id, progress: after },
                );
            &&& news && !started.contains(id) ==> comes(seq![start, say, end], all_told)
            &&& news && open.contains(id) ==> comes(seq![say, end], all_told)
            &&& news && started.contains(id) && !open.contains(id) ==> comes(seq![say], all_told)
            &&& !news && open.contains(id) ==> comes(
                seq![end],
                ProgressView { started, open: open.remove(id), sent },
            )
            &&& !news && !open.contains(id) ==> comes(Seq::empty(), progress)
        }),
        brings(
            thread_id,
            turn_id,
            progress,
            NotificationView::ItemCompleted { thread_id, turn_id, item: ItemView::Other },
            Seq::empty(),
            ActionView::<E>::Receive,
            PhaseView::Receiving { thread_id, turn_id, progress },
        ),
{
    let item = ItemView::AgentMessage { id, text };
    let plan = progress.item_completed(item);
    lemma_end_of_message::<E>(progress, id, text);
    lemma_short_tellings::<E>(DeliveryView::Start, DeliveryView::Start);
    lemma_brings::<E>(
        thread_id,
        turn_id,
        progress,
        NotificationView::ItemCompleted { thread_id, turn_id, item },
        plan.list,
        plan.progress,
        EndingView::Resume,
        end_of_message::<E>(progress, id, text),
    );
    let (start, say, end) = (
        ActionView::<E>::MessageStarted,
        ActionView::<E>::Send(text),
        ActionView::<E>::MessageFinished,
    );
    let told = end_of_message::<E>(progress, id, text);
    let after = noted_end(progress, id, text);
    if !blank(text) && !progress.sent.contains(id) {
        if !progress.started.contains(id) {
            assert(told =~= seq![start, say, end]);
        } else if progress.open.contains(id) {
            assert(told =~= seq![say, end]);
        } else {
            assert(told =~= seq![say]);
        }
    } else if progress.open.contains(id) {
        assert(told =~= seq![end]);
    } else {
        assert(told =~= Seq::empty());
        assert(after =~= progress);
    }
    lemma_brings::<E>(
        thread_id,
        turn_id,
        progress,
        NotificationView::ItemCompleted { thread_id, turn_id, item: ItemView::Other },
        Seq::empty(),
        progress,
        EndingView::Resume,
        Seq::empty(),
    );
}

/// What the output is told at the end of several items, and the record of messages after it.
pub open spec fn ends_of_items<E>(progress: ProgressView, items: Seq<ItemView>) -> (
    Seq<ActionView<E>>,
    ProgressView,
)
    decreases items.len(),
{
    if items.len() == 0 {
        (Seq::empty(), progress)
    } else {
        match items.first() {
            ItemView::AgentMessage { id, text } => {
                let later = ends_of_items::<E>(
                    noted_end(progress, id, text),
                    items.drop_first(),
                );
                (end_of_message::<E>(progress, id, text) + later.0, later.1)
            },
            ItemView::Other => ends_of_items::<E>(progress, items.drop_first()),
        }
    }
}

proof fn lemma_tellings_append<E>(a: Seq<DeliveryView>, b: Seq<DeliveryView>)
    ensures
        tellings::<E>(a + b) == tellings::<E>(a) + tellings::<E>(b),
    decreases a.len(),
{
    if a.len() == 0 {
        assert(a + b =~= b);
        assert(tellings::<E>(a) + tellings::<E>(b) =~= tellings::<E>(b));
    } else {
        assert((a + b).drop_first() =~= a.drop_first() + b);
        lemma_tellings_append::<E>(a.drop_first(), b);
        assert(tellings::<E>(a + b) =~= tellings::<E>(a) + tellings::<E>(b));
    }
}

proof fn lemma_items_from_first(progress: ProgressView, items: Seq<ItemView>)
    requires
        items.len() > 0,
    ensures
        ({
            let first = progress.item_completed(items.first());
            let later = first.progress.items_completed(items.drop_first());
            let all = progress.items_completed(items);
            &&& all.progress == later.progress
            &&& all.list == first.list + later.list
        }),
    decreases items.len(),
{
    if items.len() == 1 {
        reveal_with_fuel(ProgressView::items_completed, 2);
        assert(items.drop_last() =~= Seq::empty());
        assert(items.drop_first() =~= Seq::empty());
        let first = progress.item_completed(items.first());
        assert(Seq::<DeliveryView>::empty() + first.list =~= first.list);
        assert(first.list + Seq::<DeliveryView>::empty() =~= first.list);
    } else {
        lemma_items_from_first(progress, items.drop_last());
        assert(items.drop_last().drop_first() =~= items.drop_first().drop_last());
        let first = progress.item_completed(items.first());
        let middle = first.progress.items_completed(items.drop_first().drop_last());
        let last = middle.progress.item_completed(items.last());
        assert((first.list + middle.list) + last.list =~= first.list + (middle.list + last.list));
    }
}

proof fn lemma_ends_of_items<E>(progress: ProgressView, items: Seq<ItemView>)
    requires
        progress.wf(),
    ensures
        tellings::<E>(progress.items_completed(items).list) == ends_of_items::<E>(
            progress,
            items,
        ).0,
        progress.items_completed(items).progress == ends_of_items::<E>(progress, items).1,
    decreases items.len(),
{
    if items.len() > 0 {
        let first = progress.item_completed(items.first());
        let later = first.progress.items_completed(items.drop_first());
        lemma_items_from_first(progress, items);
        lemma_tellings_append::<E>(first.list, later.list);
        if let ItemView::AgentMessage { id, text } = items.first() {
            lemma_end_of_message::<E>(progress, id, text);
        }
        assert(first.progress.wf());
        lemma_ends_of_items::<E>(first.progress, items.drop_first());
        if items.first() is Other {
            assert(tellings::<E>(first.list) =~= Seq::empty());
            assert(tellings::<E>(first.list) + tellings::<E>(later.list) =~= tellings::<E>(
                later.list,
            ));
        }
    }
}

/// When a turn is complete, the end of each of its items is told, one after the other, as if it had
/// come by itself; then the turn ends well.
pub proof fn a_complete_turn_tells_the_end_of_each_item<E>(
    thread_id: Seq<char>,
    turn_id: Seq<char>,
    progress: ProgressView,
    items: Seq<ItemView>,
)
    requires
        progress.wf(),
    ensures
        brings(
            thread_id,
            turn_id,
            progress,
            NotificationView::TurnCompleted { thread_id, turn_id, items },
            ends_of_items::<E>(progress, items).0,
            ActionView::<E>::Finish(Ok(())),
            PhaseView::Finished,
        ),
{
    let plan = progress.items_completed(items);
    lemma_ends_of_items::<E>(progress, items);
    lemma_brings::<E>(
        thread_id,
        turn_id,
        progress,
        NotificationView::TurnCompleted { thread_id, turn_id, items },
        plan.list,
        plan.progress,
        EndingView::Complete,
        ends_of_items::<E>(progress, items).0,
    );
}

proof fn lemma_closings<E>(count: nat)
    ensures
        tellings::<E>(Seq::new(count, |i: int| DeliveryView::Finish)) == Seq::new(
            count,
            |i: int| ActionView::<E>::MessageFinished,
        ),
    decreases count,
{
    let list = Seq::new(count, |i: int| DeliveryView::Finish);
    let told = Seq::new(count, |i: int| ActionView::<E>::MessageFinished);
    if count == 0 {
        assert(told =~= Seq::empty());
    } else {
        let less = (count - 1) as nat;
        lemma_closings::<E>(less);
        assert(list.drop_first() =~= Seq::new(less, |i: int| DeliveryView::Finish));
        assert(tellings::<E>(list) =~= told);
    }
}

/// When a turn failed, each message that is open is closed, and nothing else is told; then the turn
/// fails with the error that was told of it.
pub proof fn a_failed_turn_closes_what_is_open<E>(
    thread_id: Seq<char>,
    turn_id: Seq<char>,
    progress: ProgressView,
    error: Seq<char>,
)
    requires
        progress.wf(),
    ensures
        brings(
            thread_id,
            turn_id,
            progress,
            NotificationView::Error { thread_id, turn_id, error },
            Seq::new(progress.open.len(), |i: int| ActionView::<E>::MessageFinished),
            ActionView::<E>::Finish(Err(TurnErrorView::Turn(error))),
            PhaseView::Finished,
        ),
{
    let plan = progress.close_all();
    lemma_closings::<E>(progress.open.len());
    lemma_brings::<E>(
        thread_id,
        turn_id,
        progress,
        NotificationView::Error { thread_id, turn_id, error },
        plan.list,
        plan.progress,
        EndingView::Fail(error),
        Seq::new(progress.open.len(), |i: int| ActionView::<E>::MessageFinished),
    );
}

} // verus!
