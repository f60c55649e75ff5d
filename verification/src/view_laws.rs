//! What contracts speak of is what the values hold.

use vstd::prelude::*;

use crate::delivery::{deliveries, Delivery, DeliveryView, Progress};
use crate::gateway::{
    GoalCall, GoalCallView, GoalCommand, GoalCommandView, GoalStep, GoalStepView, SessionStep,
    SessionStepView,
};
use crate::protocol::{
    input_texts, ClientRequest, IncomingMessage, IncomingView, ItemView, NotificationView,
    RequestId, RequestIdView, RequestView, ServerNotification, ThreadItem, ThreadResumeParams,
    ThreadStartParams, TurnStartParams, UserInput,
};
use crate::state::{prompts, QueuedTurn, SessionState};
use crate::text::opt_text;
use crate::turn::{
    ActionView, Ending, EndingView, EventView, PhaseView, TurnAction, TurnError, TurnErrorView,
    TurnEvent, TurnOrder, TurnPhase,
};

verus! {

/// The view of a session holds each of its fields, and of its queue the prompts in order.
pub proof fn a_session_is_seen_as_it_is(session: SessionState)
    ensures
        session@.thread_id == opt_text(session.thread_id),
        session@.model == session.model@,
        session@.effort == session.effort,
        session@.active_turn_id == opt_text(session.active_turn_id),
        session@.queued.len() == session.queued@.len(),
        forall|i: int|
            0 <= i < session.queued@.len() ==> #[trigger] session@.queued[i]
                == session.queued@[i].prompt@,
        forall|turn: QueuedTurn| (#[trigger] turn@) == turn.prompt@,
        session@.queued == prompts(session.queued@),
{
}

/// The view of user input holds its texts in order.
pub proof fn user_input_is_seen_as_it_is(input: Seq<UserInput>)
    ensures
        input_texts(input).len() == input.len(),
        forall|i: int|
            0 <= i < input.len() ==> (#[trigger] input[i] matches UserInput::Text { text } ==> text@
                == input_texts(input)[i]),
{
    assert forall|i: int| 0 <= i < input.len() implies (
    #[trigger] input[i] matches UserInput::Text { text } ==> text@ == input_texts(input)[i]) by {
        assert(input_texts(input)[i] == input[i]@);
    }
}

/// The views of the parameters of threads and turns hold each of their fields.
pub proof fn parameters_are_seen_as_they_are(
    start: ThreadStartParams,
    turn: TurnStartParams,
    resume: ThreadResumeParams,
)
    ensures
        start@.model == opt_text(start.model),
        start@.cwd == opt_text(start.cwd),
        start@.service_name == opt_text(start.service_name),
        turn@.thread_id == turn.thread_id@,
        turn@.input == input_texts(turn.input@),
        turn@.model == opt_text(turn.model),
        turn@.effort == turn.effort,
        turn@.cwd == opt_text(turn.cwd),
        resume@.thread_id == resume.thread_id@,
        resume@.model == opt_text(resume.model),
        resume@.cwd == opt_text(resume.cwd),
{
}

/// The view of a request is of its kind and holds each of its fields.
pub proof fn a_request_is_seen_as_it_is(request: ClientRequest, number: i64, text: String)
    ensures
        RequestId::Int64(number)@ == RequestIdView::Int64(number),
        RequestId::String(text)@ == RequestIdView::Text(text@),
        request matches ClientRequest::TurnStart { id, params } ==> {
            &&& request@ matches RequestView::TurnStart { id: i, params: p }
            &&& i == id@
            &&& p == params@
        },
        request matches ClientRequest::TurnSteer { id, params } ==> {
            &&& request@ matches RequestView::TurnSteer {
                id: i,
                thread_id,
                expected_turn_id,
                input,
            }
            &&& i == id@
            &&& thread_id == params.thread_id@
            &&& expected_turn_id == params.expected_turn_id@
            &&& input == input_texts(params.input@)
        },
        request matches ClientRequest::TurnInterrupt { id, params } ==> {
            &&& request@ matches RequestView::TurnInterrupt { id: i, thread_id, turn_id }
            &&& i == id@
            &&& thread_id == params.thread_id@
            &&& turn_id == params.turn_id@
        },
        request matches ClientRequest::ModelList { id, params } ==> {
            &&& request@ matches RequestView::ModelList { id: i, include_hidden, limit }
            &&& i == id@
            &&& include_hidden == params.include_hidden
            &&& limit == params.limit
        },
        request matches ClientRequest::AccountRateLimitsRead { id } ==> {
            &&& request@ matches RequestView::AccountRateLimitsRead { id: i }
            &&& i == id@
        },
        request matches ClientRequest::ThreadGoalSet { id, params } ==> {
            &&& request@ matches RequestView::ThreadGoalSet {
                id: i,
                thread_id,
                objective,
                token_budget,
                status,
            }
            &&& i == id@
            &&& thread_id == params.thread_id@
            &&& objective == opt_text(params.objective)
            &&& token_budget == params.token_budget
            &&& status == params.status
        },
        request matches ClientRequest::ThreadGoalGet { id, thread_id } ==> {
            &&& request@ matches RequestView::ThreadGoalGet { id: i, thread_id: t }
            &&& i == id@
            &&& t == thread_id@
        },
        request matches ClientRequest::ThreadGoalClear { id, thread_id } ==> {
            &&& request@ matches RequestView::ThreadGoalClear { id: i, thread_id: t }
            &&& i == id@
            &&& t == thread_id@
        },
        request matches ClientRequest::ThreadList { id, limit } ==> {
            &&& request@ matches RequestView::ThreadList { id: i, limit: l }
            &&& i == id@
            &&& l == limit
        },
        request matches ClientRequest::ThreadResume { id, params } ==> {
            &&& request@ matches RequestView::ThreadResume { id: i, params: p }
            &&& i == id@
            &&& p == params@
        },
{
}

/// The view of a notification is of its kind and holds each of its fields.
pub proof fn a_notification_is_seen_as_it_is(
    note: ServerNotification,
    item: ThreadItem,
    message: IncomingMessage,
)
    ensures
        item matches ThreadItem::AgentMessage { id, text } ==> {
            &&& item@ matches ItemView::AgentMessage { id: i, text: t }
            &&& i == id@
            &&& t == text@
        },
        item is Other <==> item@ is Other,
        note matches ServerNotification::ItemStarted { thread_id, turn_id, item: it } ==> {
            &&& note@ matches NotificationView::ItemStarted { thread_id: t, turn_id: u, item: v }
            &&& t == thread_id@
            &&& u == turn_id@
            &&& v == it@
        },
        note matches ServerNotification::ItemCompleted { thread_id, turn_id, item: it } ==> {
            &&& note@ matches NotificationView::ItemCompleted { thread_id: t, turn_id: u, item: v }
            &&& t == thread_id@
            &&& u == turn_id@
            &&& v == it@
        },
        note matches ServerNotification::TurnCompleted { thread_id, turn_id, items } ==> {
            &&& note@ matches NotificationView::TurnCompleted { thread_id: t, turn_id: u, items: v }
            &&& t == thread_id@
            &&& u == turn_id@
            &&& v.len() == items@.len()
            &&& forall|i: int| 0 <= i < v.len() ==> #[trigger] v[i] == items@[i]@
        },
        note matches ServerNotification::Error { thread_id, turn_id, error } ==> {
            &&& note@ matches NotificationView::Error { thread_id: t, turn_id: u, error: e }
            &&& t == thread_id@
            &&& u == turn_id@
            &&& e == error@
        },
        note is Other <==> note@ is Other,
        message matches IncomingMessage::Notification(n) ==> message@
            == IncomingView::Notification(n@),
        message is Other <==> message@ is Other,
{
}

/// The view of a delivery and that of a record of messages hold each of their fields.
pub proof fn deliveries_are_seen_as_they_are(
    delivery: Delivery,
    list: Seq<Delivery>,
    progress: Progress,
)
    ensures
        deliveries(list).len() == list.len(),
        forall|i: int| 0 <= i < list.len() ==> #[trigger] deliveries(list)[i] == list[i]@,
        delivery is Start <==> delivery@ is Start,
        delivery is Finish <==> delivery@ is Finish,
        delivery matches Delivery::Text { text, finish } ==> delivery@ == (DeliveryView::Text {
            text: text@,
            finish,
        }),
        progress@.started == progress.started@,
        progress@.open == progress.open@,
        progress@.sent == progress.sent@,
{
}

/// The views of the steps of commands are of their kind and hold each of their fields.
pub proof fn steps_of_commands_are_seen_as_they_are<K>(
    command: GoalCommand,
    call: GoalCall,
    goal: GoalStep<K>,
    session: SessionStep<K>,
)
    ensures
        command is Show <==> command@ is Show,
        command is Clear <==> command@ is Clear,
        command matches GoalCommand::Pursue { objective, budget } ==> command@ == (
        GoalCommandView::Pursue { objective: objective@, budget }),
        command matches GoalCommand::SetStatus(status) ==> command@ == GoalCommandView::SetStatus(
            status,
        ),
        call matches GoalCall::Show(request) ==> call@ == GoalCallView::Show(request@),
        call matches GoalCall::Change(request) ==> call@ == GoalCallView::Change(request@),
        call matches GoalCall::Clear(request) ==> call@ == GoalCallView::Clear(request@),
        goal matches GoalStep::StartThread { params, key, command: c } ==> goal@ == (
        GoalStepView::<K>::StartThread { params: params@, key, command: c@ }),
        goal matches GoalStep::Call(c) ==> goal@ == GoalStepView::<K>::Call(c@),
        session matches SessionStep::Reply(text) ==> session@ == SessionStepView::<K>::Reply(text@),
        session matches SessionStep::StartThread { params, key } ==> session@ == (
        SessionStepView::<K>::StartThread { params: params@, key }),
        session matches SessionStep::List(request) ==> session@ == SessionStepView::<K>::List(
            request@,
        ),
        session matches SessionStep::Resume { request, key } ==> session@ == (
        SessionStepView::<K>::Resume { request: request@, key }),
        session matches SessionStep::Refuse(error) ==> session@ == SessionStepView::<K>::Refuse(
            error,
        ),
{
}

/// The views of where a turn stands are of their kind and hold what they carry.
pub proof fn phases_are_seen_as_they_are<E>(
    order: TurnOrder,
    ending: Ending,
    phase: TurnPhase<E>,
)
    ensures
        order@.key_text == order.key_text@,
        order@.prompt == order.prompt@,
        order@.model == order.model@,
        order@.effort == order.effort,
        order@.cwd == opt_text(order.cwd),
        ending is Resume <==> ending@ is Resume,
        ending is Complete <==> ending@ is Complete,
        ending matches Ending::Fail(error) ==> ending@ == EndingView::Fail(error@),
        phase matches TurnPhase::StartingThread { order: o } ==> phase@ == (
        PhaseView::<E>::StartingThread { order: o@ }),
        phase matches TurnPhase::StartingTurn { thread_id } ==> phase@ == (
        PhaseView::<E>::StartingTurn { thread_id: thread_id@ }),
        phase matches TurnPhase::Announcing { thread_id, turn_id } ==> phase@ == (
        PhaseView::<E>::Announcing { thread_id: thread_id@, turn_id: turn_id@ }),
        phase matches TurnPhase::Receiving { thread_id, turn_id, progress } ==> phase@ == (
        PhaseView::<E>::Receiving {
            thread_id: thread_id@,
            turn_id: turn_id@,
            progress: progress@,
        }),
        phase matches TurnPhase::Delivering {
            thread_id,
            turn_id,
            progress,
            under_way,
            rest,
            ending: e,
        } ==> phase@ == (PhaseView::<E>::Delivering {
            thread_id: thread_id@,
            turn_id: turn_id@,
            progress: progress@,
            under_way,
            rest: deliveries(rest@),
            ending: e@,
        }),
        phase is Finished <==> phase@ is Finished,
{
}

/// The views of what a turn asks for and of what comes of it are of their kind and hold what they
/// carry.
pub proof fn actions_and_events_are_seen_as_they_are<E>(
    action: TurnAction<E>,
    event: TurnEvent<E>,
    error: TurnError<E>,
)
    ensures
        error matches TurnError::Outside(e) ==> error@ == TurnErrorView::Outside(e),
        error matches TurnError::Turn(text) ==> error@ == TurnErrorView::<E>::Turn(text@),
        action matches TurnAction::StartThread(params) ==> action@
            == ActionView::<E>::StartThread(params@),
        action matches TurnAction::StartTurn(request) ==> action@ == ActionView::<E>::StartTurn(
            request@,
        ),
        action is TurnStarted <==> action@ is TurnStarted,
        action is MessageStarted <==> action@ is MessageStarted,
        action matches TurnAction::Send(text) ==> action@ == ActionView::<E>::Send(text@),
        action is MessageFinished <==> action@ is MessageFinished,
        action is Receive <==> action@ is Receive,
        action matches TurnAction::Finish(Ok(())) ==> action@ == ActionView::<E>::Finish(Ok(())),
        action matches TurnAction::Finish(Err(e)) ==> action@ == ActionView::<E>::Finish(Err(e@)),
        event matches TurnEvent::Thread(Ok(id)) ==> event@ == EventView::<E>::Thread(Ok(id@)),
        event matches TurnEvent::Thread(Err(e)) ==> event@ == EventView::<E>::Thread(Err(e)),
        event matches TurnEvent::Turn(Ok(id)) ==> event@ == EventView::<E>::Turn(Ok(id@)),
        event matches TurnEvent::Turn(Err(e)) ==> event@ == EventView::<E>::Turn(Err(e)),
        event matches TurnEvent::Output(result) ==> event@ == EventView::<E>::Output(result),
        event matches TurnEvent::Incoming(Ok(message)) ==> event@ == EventView::<E>::Incoming(
            Ok(message@),
        ),
        event matches TurnEvent::Incoming(Err(e)) ==> event@ == EventView::<E>::Incoming(Err(e)),
{
}

} // verus!
